//! The protocol adapter: one inbound stream of typed processing messages is
//! folded into a transaction record, and every message is answered with a
//! content-independent acknowledgement of the matching kind.

use vstd::prelude::*;
use crate::event::{client_ip_of, Event, ResponseInfo};
use crate::body::{body_matches, opt_view};
use crate::headers::{built_map, header_list_to_map, lookup, strip_pseudo, HeaderEntry};
use crate::strutil::{parses_as_usize, usize_val};

verus! {

/// One inbound processing message, as the gateway mirrors it: headers, body
/// chunks with an end-of-stream flag, or trailers, on either leg.
pub enum ProcessingMessage {
    RequestHeaders(Vec<HeaderEntry>),
    RequestBody(Vec<u8>, bool),
    RequestTrailers,
    ResponseHeaders(Vec<HeaderEntry>),
    ResponseBody(Vec<u8>, bool),
    ResponseTrailers,
}

/// The acknowledgement sent back for one message: the matching kind,
/// carrying no payload, so passing traffic is never altered or withheld.
#[derive(Clone, Copy, Debug, PartialEq, Eq, Structural)]
pub enum AckKind {
    RequestHeaders,
    RequestBody,
    RequestTrailers,
    ResponseHeaders,
    ResponseBody,
    ResponseTrailers,
}

/// The acknowledgement kind each message kind gets.
pub open spec fn ack_for(msg: ProcessingMessage) -> AckKind {
    match msg {
        ProcessingMessage::RequestHeaders(_) => AckKind::RequestHeaders,
        ProcessingMessage::RequestBody(_, _) => AckKind::RequestBody,
        ProcessingMessage::RequestTrailers => AckKind::RequestTrailers,
        ProcessingMessage::ResponseHeaders(_) => AckKind::ResponseHeaders,
        ProcessingMessage::ResponseBody(_, _) => AckKind::ResponseBody,
        ProcessingMessage::ResponseTrailers => AckKind::ResponseTrailers,
    }
}

/// The views of a header list.
pub open spec fn entry_views(hs: Vec<HeaderEntry>) -> Seq<(Seq<char>, Seq<char>, Seq<u8>)> {
    hs@.map_values(|e: HeaderEntry| e@)
}

/// Applies request headers: the normalized map is installed on the request
/// leg, with verb, URI, API version and client IP derived from it.
pub fn process_request_headers(headers_msg: &Vec<HeaderEntry>, event: &mut Event)
    ensures
        final(event).request.headers@ == strip_pseudo(built_map(entry_views(*headers_msg))),
        final(event).request.verb@ == (match lookup(built_map(entry_views(*headers_msg)), ":method"@) {
            Some(v) => v,
            None => old(event).request.verb@,
        }),
        final(event).request.uri@ == (match lookup(built_map(entry_views(*headers_msg)), ":path"@) {
            Some(v) => v,
            None => old(event).request.uri@,
        }),
        opt_view(final(event).request.api_version) == lookup(
            strip_pseudo(built_map(entry_views(*headers_msg))),
            "x-api-version"@,
        ),
        opt_view(final(event).request.ip_address) == client_ip_of(
            strip_pseudo(built_map(entry_views(*headers_msg))),
        ),
        final(event).request.time == old(event).request.time,
        final(event).request.body == old(event).request.body,
        final(event).request.transfer_encoding == old(event).request.transfer_encoding,
        final(event).response == old(event).response,
        final(event).user_id == old(event).user_id,
        final(event).company_id == old(event).company_id,
        final(event).metadata == old(event).metadata,
        final(event).direction == old(event).direction,
        final(event).session_token == old(event).session_token,
        final(event).blocked_by == old(event).blocked_by,
{
    let headers_map = header_list_to_map(headers_msg);
    event.request.set_headers(headers_map);
}

/// Appends one request body chunk to the per-stream accumulator and, at end
/// of stream, finalizes the request body from the accumulated bytes.
pub fn process_request_body(
    body: &Vec<u8>,
    end_of_stream: bool,
    event: &mut Event,
    request_body_bytes: &mut Vec<u8>,
)
    requires
        old(request_body_bytes)@.len() + body@.len() <= 3 * (usize::MAX as int / 4),
    ensures
        final(request_body_bytes)@ == old(request_body_bytes)@ + body@,
        !end_of_stream ==> *final(event) == *old(event),
        end_of_stream ==> ({
            let acc = old(request_body_bytes)@ + body@;
            &&& acc.len() > 0 ==> body_matches(
                final(event).request.body,
                opt_view(final(event).request.transfer_encoding),
                acc,
            )
            &&& acc.len() == 0 ==> final(event).request.body == old(event).request.body
                && final(event).request.transfer_encoding == old(event).request.transfer_encoding
            &&& final(event).request.time == old(event).request.time
            &&& final(event).request.verb == old(event).request.verb
            &&& final(event).request.uri == old(event).request.uri
            &&& final(event).request.headers == old(event).request.headers
            &&& final(event).request.api_version == old(event).request.api_version
            &&& final(event).request.ip_address == old(event).request.ip_address
            &&& final(event).response == old(event).response
            &&& final(event).user_id == old(event).user_id
            &&& final(event).company_id == old(event).company_id
            &&& final(event).metadata == old(event).metadata
            &&& final(event).direction == old(event).direction
            &&& final(event).session_token == old(event).session_token
            &&& final(event).blocked_by == old(event).blocked_by
        }),
{
    request_body_bytes.extend_from_slice(body.as_slice());
    if end_of_stream {
        event.request.set_body(request_body_bytes);
    }
}

/// Applies response headers, creating the response leg lazily: the status is
/// taken from the `:status` pseudo-header when it parses, and the normalized
/// map (pseudo-headers stripped) is installed.
pub fn process_response_headers(headers_msg: &Vec<HeaderEntry>, event: &mut Event)
    ensures
        final(event).response matches Some(resp) && ({
            let prior_status = (match old(event).response {
                Some(old_resp) => old_resp.status,
                None => 0usize,
            });
            &&& resp.headers@ == strip_pseudo(built_map(entry_views(*headers_msg)))
            &&& resp.status == (match lookup(built_map(entry_views(*headers_msg)), ":status"@) {
                Some(v) => if parses_as_usize(v) {
                    usize_val(v) as usize
                } else {
                    prior_status
                },
                None => prior_status,
            })
            &&& (old(event).response matches Some(old_resp) ==> resp.body == old_resp.body
                && resp.transfer_encoding == old_resp.transfer_encoding && resp.ip_address
                == old_resp.ip_address && resp.time == old_resp.time)
            &&& (old(event).response is None ==> resp.body is Unset && resp.transfer_encoding
                is None && resp.ip_address is None)
        }),
        final(event).request == old(event).request,
        final(event).user_id == old(event).user_id,
        final(event).company_id == old(event).company_id,
        final(event).metadata == old(event).metadata,
        final(event).direction == old(event).direction,
        final(event).session_token == old(event).session_token,
        final(event).blocked_by == old(event).blocked_by,
{
    if event.response.is_none() {
        event.response = Some(ResponseInfo::new());
    }
    match &mut event.response {
        Some(response_info) => {
            let headers_map = header_list_to_map(headers_msg);
            response_info.set_headers(headers_map);
        },
        None => {},
    }
}

/// Appends one response body chunk to its accumulator and, at end of
/// stream, creates the response leg if absent and finalizes its body.
pub fn process_response_body(
    body: &Vec<u8>,
    end_of_stream: bool,
    event: &mut Event,
    response_body_bytes: &mut Vec<u8>,
)
    requires
        old(response_body_bytes)@.len() + body@.len() <= 3 * (usize::MAX as int / 4),
    ensures
        final(response_body_bytes)@ == old(response_body_bytes)@ + body@,
        !end_of_stream ==> *final(event) == *old(event),
        end_of_stream ==> ({
            let acc = old(response_body_bytes)@ + body@;
            &&& final(event).response matches Some(resp) && ({
                &&& acc.len() > 0 ==> body_matches(
                    resp.body,
                    opt_view(resp.transfer_encoding),
                    acc,
                )
                &&& (old(event).response matches Some(old_resp) ==> ({
                    &&& acc.len() == 0 ==> resp.body == old_resp.body && resp.transfer_encoding
                        == old_resp.transfer_encoding
                    &&& resp.status == old_resp.status
                    &&& resp.headers == old_resp.headers
                    &&& resp.ip_address == old_resp.ip_address
                    &&& resp.time == old_resp.time
                }))
                &&& (old(event).response is None ==> ({
                    &&& acc.len() == 0 ==> resp.body is Unset && resp.transfer_encoding is None
                    &&& resp.status == 0
                    &&& resp.headers@ == Seq::<(Seq<char>, Seq<char>)>::empty()
                    &&& resp.ip_address is None
                }))
            })
            &&& final(event).request == old(event).request
            &&& final(event).user_id == old(event).user_id
            &&& final(event).company_id == old(event).company_id
            &&& final(event).metadata == old(event).metadata
            &&& final(event).direction == old(event).direction
            &&& final(event).session_token == old(event).session_token
            &&& final(event).blocked_by == old(event).blocked_by
        }),
{
    response_body_bytes.extend_from_slice(body.as_slice());
    if end_of_stream {
        if event.response.is_none() {
            event.response = Some(ResponseInfo::new());
        }
        match &mut event.response {
            Some(response_info) => {
                response_info.set_body(response_body_bytes);
            },
            None => {},
        }
    }
}

/// Folds one inbound message into the record and the two body accumulators,
/// returning the matching acknowledgement kind. Headers and trailers never
/// touch the body accumulators, and trailers never touch the record.
pub fn process_request(
    msg: &ProcessingMessage,
    event: &mut Event,
    request_body_bytes: &mut Vec<u8>,
    response_body_bytes: &mut Vec<u8>,
) -> (ack: AckKind)
    requires
        (msg matches ProcessingMessage::RequestBody(b, _) ==> old(request_body_bytes)@.len()
            + b@.len() <= 3 * (usize::MAX as int / 4)),
        (msg matches ProcessingMessage::ResponseBody(b, _) ==> old(response_body_bytes)@.len()
            + b@.len() <= 3 * (usize::MAX as int / 4)),
    ensures
        ack == ack_for(*msg),
        // headers and trailers are idempotent on the body accumulators
        !(msg matches ProcessingMessage::RequestBody(..)) ==> final(request_body_bytes)@ == old(
            request_body_bytes,
        )@,
        !(msg matches ProcessingMessage::ResponseBody(..)) ==> final(response_body_bytes)@ == old(
            response_body_bytes,
        )@,
        // trailers never mutate the record
        (msg matches ProcessingMessage::RequestTrailers || msg
            matches ProcessingMessage::ResponseTrailers) ==> *final(event) == *old(event),
        (msg matches ProcessingMessage::RequestBody(b, eos) ==> final(request_body_bytes)@ == old(
            request_body_bytes,
        )@ + b@ && (!*eos ==> *final(event) == *old(event)) && (*eos ==> ({
            let acc = old(request_body_bytes)@ + b@;
            &&& acc.len() > 0 ==> body_matches(
                final(event).request.body,
                opt_view(final(event).request.transfer_encoding),
                acc,
            )
            &&& final(event).request.headers == old(event).request.headers
            &&& final(event).request.verb == old(event).request.verb
            &&& final(event).request.uri == old(event).request.uri
            &&& final(event).response == old(event).response
        }))),
        (msg matches ProcessingMessage::ResponseBody(b, eos) ==> final(response_body_bytes)@ == old(
            response_body_bytes,
        )@ + b@ && (!*eos ==> *final(event) == *old(event)) && (*eos ==> ({
            let acc = old(response_body_bytes)@ + b@;
            &&& final(event).response matches Some(resp) && (acc.len() > 0 ==> body_matches(
                resp.body,
                opt_view(resp.transfer_encoding),
                acc,
            ))
            &&& final(event).request == old(event).request
        }))),
        (msg matches ProcessingMessage::RequestHeaders(hs) ==> final(event).request.headers@
            == strip_pseudo(built_map(entry_views(*hs))) && final(event).request.verb@ == (
        match lookup(built_map(entry_views(*hs)), ":method"@) {
            Some(v) => v,
            None => old(event).request.verb@,
        }) && final(event).request.uri@ == (match lookup(built_map(entry_views(*hs)), ":path"@) {
            Some(v) => v,
            None => old(event).request.uri@,
        }) && final(event).response == old(event).response),
        (msg matches ProcessingMessage::ResponseHeaders(hs) ==> (final(event).response matches Some(
            resp,
        ) && resp.headers@ == strip_pseudo(built_map(entry_views(*hs)))) && final(event).request
            == old(event).request),
{
    match msg {
        ProcessingMessage::RequestHeaders(headers_msg) => {
            process_request_headers(headers_msg, event);
            AckKind::RequestHeaders
        },
        ProcessingMessage::RequestBody(body, end_of_stream) => {
            process_request_body(body, *end_of_stream, event, request_body_bytes);
            AckKind::RequestBody
        },
        ProcessingMessage::RequestTrailers => AckKind::RequestTrailers,
        ProcessingMessage::ResponseHeaders(headers_msg) => {
            process_response_headers(headers_msg, event);
            AckKind::ResponseHeaders
        },
        ProcessingMessage::ResponseBody(body, end_of_stream) => {
            process_response_body(body, *end_of_stream, event, response_body_bytes);
            AckKind::ResponseBody
        },
        ProcessingMessage::ResponseTrailers => AckKind::ResponseTrailers,
    }
}

/// The concatenation of a sequence of body chunks.
pub open spec fn concat_chunks(chunks: Seq<Seq<u8>>) -> Seq<u8>
    decreases chunks.len(),
{
    if chunks.len() == 0 {
        Seq::<u8>::empty()
    } else {
        concat_chunks(chunks.drop_last()) + chunks.last()
    }
}

/// An accumulator that starts empty and is extended once per chunk — as the
/// body-chunk handlers extend it — ends as the concatenation of the chunks.
pub proof fn lemma_accumulated_is_concat(chunks: Seq<Seq<u8>>, accs: Seq<Seq<u8>>)
    requires
        accs.len() == chunks.len() + 1,
        accs[0] == Seq::<u8>::empty(),
        forall|i: int| 0 <= i < chunks.len() ==> accs[i + 1] == #[trigger] accs[i] + chunks[i],
    ensures
        accs.last() == concat_chunks(chunks),
    decreases chunks.len(),
{
    if chunks.len() == 0 {
        assert(accs.last() == accs[0]);
        assert(concat_chunks(chunks) =~= Seq::<u8>::empty());
    } else {
        let n = chunks.len() as int;
        lemma_accumulated_is_concat(chunks.drop_last(), accs.drop_last());
        assert(accs.drop_last().last() == accs[n - 1]);
        assert(accs[n] == accs[n - 1] + chunks[n - 1]);
    }
}

/// For every sequence of body chunks ending with an end-of-stream chunk: the
/// accumulator trace the chunk handlers produce ends as concat(chunks), so a
/// body finalized from it equals the parsed document when concat(chunks) is
/// valid JSON and its base64 encoding, marker set, otherwise.
pub proof fn lemma_finalized_body_of_chunks(
    chunks: Seq<Seq<u8>>,
    accs: Seq<Seq<u8>>,
    body: crate::body::BodyValue,
    te: Option<Seq<char>>,
)
    requires
        accs.len() == chunks.len() + 1,
        accs[0] == Seq::<u8>::empty(),
        forall|i: int| 0 <= i < chunks.len() ==> accs[i + 1] == #[trigger] accs[i] + chunks[i],
        body_matches(body, te, accs.last()),
    ensures
        body_matches(body, te, concat_chunks(chunks)),
{
    lemma_accumulated_is_concat(chunks, accs);
}

} // verus!
