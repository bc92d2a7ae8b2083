//! Relay ingress: an inbound request for an identifier becomes one text
//! message on that identifier's queue, and the caller gets its answer
//! without waiting for the peer.

use vstd::prelude::*;
use vstd::string::*;
use vstd::utf8::*;
use crate::encoder::{
    crlf, header_lines, is_text, request_to_raw_http, EncodingError, RawRequest, RequestView,
};
use crate::identifier::{identifier_of, parse_identifier, IdentifierParseError};
use crate::message::{MessageView, WsMessage};
use crate::registry::{Delivery, State, Tx};
use crate::reply::{plain_reply, Reply};

verus! {

/// Why nothing was submitted for a relay request.
#[derive(Clone, Copy, Debug, PartialEq, Eq)]
pub enum RelayError {
    /// The path segment names no identifier.
    Identifier(IdentifierParseError),
    /// The request has no text form.
    Encoding(EncodingError),
}

/// The status of the answer to a relay request: a client error where
/// nothing was submitted, success otherwise, whatever became of the
/// message.
pub open spec fn reply_status(outcome: Result<Delivery, RelayError>) -> u16 {
    match outcome {
        Ok(_) => 200,
        Err(_) => 400,
    }
}

/// The body of the answer to a relay request.
pub open spec fn reply_body(outcome: Result<Delivery, RelayError>) -> Seq<char> {
    match outcome {
        Ok(_) => "OK"@,
        Err(RelayError::Identifier(_)) => "Invalid identifier"@,
        Err(RelayError::Encoding(_)) => "Request cannot be relayed"@,
    }
}

/// What a relay request asks to be submitted, and for whom, where it asks
/// for anything: the request's text form as one text message, for the
/// identifier that the path segment names.
pub open spec fn submission(segment: Seq<u8>, request: RequestView) -> Option<(u64, MessageView)> {
    match identifier_of(segment) {
        Some(id) if request.encodable() => Some((id, MessageView::Text(request.encoded()))),
        _ => None,
    }
}

/// Whether `outcome` is an outcome of a relay request while the
/// identifiers in `registered` have a connection. Nothing but the
/// identifier that the request names counts, and of a registered queue
/// only whether it took the message is left open.
pub open spec fn relayed(
    registered: Set<u64>,
    segment: Seq<u8>,
    request: RequestView,
    outcome: Result<Delivery, RelayError>,
) -> bool {
    match outcome {
        Ok(delivery) => {
            &&& submission(segment, request) matches Some((id, _))
            &&& (delivery is NoTunnel <==> !registered.contains(id))
        },
        Err(RelayError::Identifier(_)) => identifier_of(segment) is None,
        Err(RelayError::Encoding(error)) => {
            &&& identifier_of(segment) is Some
            &&& request.fails_with(error)
        },
    }
}

/// What a relay request asks to be submitted, and for whom: the request's
/// text form as one text message, for the identifier that the path
/// segment names. The segment is read first.
pub fn relay_message(segment: &[u8], request: RawRequest) -> (result: Result<
    (u64, WsMessage),
    RelayError,
>)
    ensures
        match result {
            Ok((id, message)) => submission(segment@, request@) == Some((id, message@)),
            Err(RelayError::Identifier(_)) => identifier_of(segment@) is None,
            Err(RelayError::Encoding(error)) => {
                &&& identifier_of(segment@) is Some
                &&& request@.fails_with(error)
            },
        },
{
    let id: u64 = match parse_identifier(segment) {
        Ok(id) => id,
        Err(error) => {
            return Err(RelayError::Identifier(error));
        },
    };
    match request_to_raw_http(request) {
        Ok(raw) => Ok((id, WsMessage::Text(raw))),
        Err(error) => Err(RelayError::Encoding(error)),
    }
}

/// Handles one relay request: submits its message to the queue of the
/// identifier it names, if one is registered. A request that cannot be
/// relayed never touches a queue.
pub fn relay(state: &State, segment: &[u8], request: RawRequest) -> (outcome: Result<
    Delivery,
    RelayError,
>)
    ensures
        relayed(state@.dom(), segment@, request@, outcome),
{
    match relay_message(segment, request) {
        Ok((id, message)) => Ok(state.send(id, message)),
        Err(error) => Err(error),
    }
}

/// The answer to the caller of the relay path.
pub fn relay_reply(outcome: Result<Delivery, RelayError>) -> (reply: Reply)
    ensures
        reply@ == plain_reply(reply_status(outcome), reply_body(outcome)),
{
    match outcome {
        Ok(_) => Reply::plain(200, "OK"),
        Err(RelayError::Identifier(_)) => Reply::plain(400, "Invalid identifier"),
        Err(RelayError::Encoding(_)) => Reply::plain(400, "Request cannot be relayed"),
    }
}

/// A request that is encodable fails with no error, and no request fails
/// with two.
pub proof fn encodable_never_fails(request: RequestView, error: EncodingError)
    ensures
        request.encodable() ==> !request.fails_with(error),
        forall|other: EncodingError|
            request.fails_with(error) && request.fails_with(other) ==> other == error,
{
    assert forall|other: EncodingError|
        request.fails_with(error) && request.fails_with(other) implies other == error by {
        match (error, other) {
            (
                EncodingError::HeaderNotText { index: first },
                EncodingError::HeaderNotText { index: second },
            ) => {
                if first < second {
                    assert(is_text(request.headers[first as int].value));
                } else if second < first {
                    assert(is_text(request.headers[second as int].value));
                }
            },
            _ => {},
        }
    }
}

/// The UTF-8 encoding of two texts joined is the two encodings joined.
pub proof fn encode_utf8_joined(head: Seq<char>, tail: Seq<char>)
    ensures
        encode_utf8(head + tail) == encode_utf8(head) + encode_utf8(tail),
    decreases head.len(),
{
    if head.len() == 0 {
        assert(head + tail == tail);
    } else {
        encode_utf8_joined(head.drop_first(), tail);
        assert((head + tail).drop_first() == head.drop_first() + tail);
    }
}

/// A well-formed request for an identifier with a registered connection
/// asks for one text message that holds the request's text form to be
/// submitted for that identifier. Its outcome is that of a send attempt
/// on the registered queue, and the caller is answered with success.
pub proof fn live_tunnel_gets_the_request(
    registered: Set<u64>,
    id: u64,
    segment: Seq<u8>,
    request: RequestView,
    outcome: Result<Delivery, RelayError>,
)
    requires
        registered.contains(id),
        identifier_of(segment) == Some(id),
        request.encodable(),
        relayed(registered, segment, request, outcome),
    ensures
        submission(segment, request) == Some((id, MessageView::Text(request.encoded()))),
        outcome == Ok::<Delivery, RelayError>(Delivery::Queued) || outcome == Ok::<
            Delivery,
            RelayError,
        >(Delivery::QueueClosed),
        reply_status(outcome) == 200,
{
    if let Err(RelayError::Encoding(error)) = outcome {
        encodable_never_fails(request, error);
    }
}

/// The frame that carries a relayed request holds, as UTF-8, the request
/// line, the header lines and a blank line, and after them the body,
/// byte for byte.
pub proof fn relayed_frame_ends_with_the_body(request: RequestView)
    requires
        request.encodable(),
    ensures
        MessageView::Text(request.encoded()).frame().payload == encode_utf8(
            request.request_line() + header_lines(request.headers) + crlf(),
        ) + request.body,
{
    encode_utf8_joined(
        request.request_line() + header_lines(request.headers) + crlf(),
        decode_utf8(request.body),
    );
    decode_utf8_encode_utf8(request.body);
}

/// Once a connection is closed and its identifier unregistered, the
/// registry resolves the identifier no longer, and a well-formed request
/// for it is still answered with success.
pub proof fn closed_tunnel_still_answers(
    clients: Map<u64, Tx>,
    id: u64,
    segment: Seq<u8>,
    request: RequestView,
    outcome: Result<Delivery, RelayError>,
)
    requires
        identifier_of(segment) == Some(id),
        request.encodable(),
        relayed(clients.remove(id).dom(), segment, request, outcome),
    ensures
        !clients.remove(id).contains_key(id),
        outcome == Ok::<Delivery, RelayError>(Delivery::NoTunnel),
        reply_status(outcome) == 200,
{
    if let Err(RelayError::Encoding(error)) = outcome {
        encodable_never_fails(request, error);
    }
}

/// What a relay request may come to does not depend on which other
/// identifiers are registered: a connection that comes or goes under
/// another identifier changes no outcome.
pub proof fn other_tunnels_do_not_matter(
    registered: Set<u64>,
    other: u64,
    segment: Seq<u8>,
    request: RequestView,
    outcome: Result<Delivery, RelayError>,
)
    requires
        identifier_of(segment) != Some(other),
    ensures
        relayed(registered.insert(other), segment, request, outcome) == relayed(
            registered,
            segment,
            request,
            outcome,
        ),
        relayed(registered.remove(other), segment, request, outcome) == relayed(
            registered,
            segment,
            request,
            outcome,
        ),
{
}

} // verus!
