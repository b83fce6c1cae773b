//! What a client and a broker exchange, as bytes: a request with its header behind their
//! size, and a response behind its header.
use vstd::prelude::*;
use crate::codec::KafkaEncodable;
use crate::err::CodecError;
use crate::primitives::NullableString;
use crate::protocol::headers::{RequestHeaderV2, ResponseHeaderV0, ResponseHeaderV1};
use crate::protocol::requests::PairWithI32EncodedSize;
use crate::protocol::tags::TaggedFields;
use crate::protocol::{ApiVersion, KafkaRequest, KafkaResponse};
use crate::seqs::{is_suffix_of, lemma_suffix_refl};

verus! {

/// Why the bytes of a response gave no response.
#[derive(Debug, Clone, Copy, PartialEq, Eq)]
pub enum ExchangeError {
    /// The header or the response could not be decoded.
    Codec(CodecError),
    /// The response answers another request than the one that was sent.
    CorrelationMismatch { sent: i32, received: i32 },
}

/// The correlation id of the response header of version `response_header_version` at the
/// front of `s`, and what follows the header. There are the versions 0 and 1.
pub open spec fn parse_correlation_id(s: Seq<u8>, response_header_version: ApiVersion) -> Result<
    (i32, Seq<u8>),
    CodecError,
> {
    if response_header_version == 0 {
        ResponseHeaderV0::parse(s)
    } else if response_header_version == 1 {
        match ResponseHeaderV1::parse(s) {
            Ok(((id, _), rest)) => Ok((id, rest)),
            Err(e) => Err(e),
        }
    } else {
        Err(CodecError::UnrecognizedDiscriminant { value: response_header_version })
    }
}

/// What is left of `s` when reading a response header of version
/// `response_header_version` from it reports an error: all of it where there is no such
/// version.
pub open spec fn header_unread_after_error(
    s: Seq<u8>,
    response_header_version: ApiVersion,
) -> Seq<u8> {
    if response_header_version == 0 {
        ResponseHeaderV0::unread_after_error(s)
    } else if response_header_version == 1 {
        ResponseHeaderV1::unread_after_error(s)
    } else {
        s
    }
}

/// Reads the response header of the given version from the front of `reader`, and gives
/// its correlation id.
pub fn deserialize_response_header_and_get_correlation_id(
    reader: &mut &[u8],
    response_header_version: ApiVersion,
) -> (r: Result<i32, CodecError>)
    ensures
        is_suffix_of(final(reader)@, old(reader)@),
        match parse_correlation_id(old(reader)@, response_header_version) {
            Ok((id, rest)) => r == Ok::<i32, CodecError>(id) && final(reader)@ == rest,
            Err(e) => r == Err::<i32, CodecError>(e) && final(reader)@
                == header_unread_after_error(old(reader)@, response_header_version),
        },
{
    proof {
        lemma_suffix_refl(reader@);
    }
    if response_header_version == 0 {
        match ResponseHeaderV0::from_kafka_bytes(reader) {
            Ok(header) => Ok(header.correlation_id),
            Err(e) => Err(e),
        }
    } else if response_header_version == 1 {
        match ResponseHeaderV1::from_kafka_bytes(reader) {
            Ok(header) => Ok(header.correlation_id),
            Err(e) => Err(e),
        }
    } else {
        Err(CodecError::UnrecognizedDiscriminant { value: response_header_version })
    }
}

/// The header that a client sends before `Request`: of version 2, with the key and the
/// version of the request, and without tagged fields.
pub open spec fn request_header<Request: KafkaRequest>(
    correlation_id: i32,
    client_id: Seq<char>,
) -> <RequestHeaderV2 as KafkaEncodable>::Value {
    (
        Request::api_key(),
        (
            Request::version(),
            (correlation_id, (Some(client_id), Seq::<(u32, Seq<u8>)>::empty())),
        ),
    )
}

/// The bytes that a client sends for `request`: the header and the request, behind their
/// size.
pub fn encode_request<Request: KafkaRequest>(
    request: Request,
    correlation_id: i32,
    client_id: &str,
) -> (r: Result<Vec<u8>, CodecError>)
    ensures
        ({
            let sent = (request_header::<Request>(correlation_id, client_id@), request.value());
            match PairWithI32EncodedSize::<RequestHeaderV2, Request>::encode_error(sent) {
                None => r matches Ok(bytes) && bytes@ == PairWithI32EncodedSize::<
                    RequestHeaderV2,
                    Request,
                >::wire(sent),
                Some(e) => r matches Err(x) && x == e,
            }
        }),
{
    let header = RequestHeaderV2 {
        request_api_key: Request::get_api_key(),
        request_api_version: Request::get_version(),
        correlation_id,
        client_id: NullableString(Some(client_id.to_owned())),
        tag_buffer: TaggedFields::new(),
    };
    let ghost sent = (request_header::<Request>(correlation_id, client_id@), request.value());
    assert(header.value() == sent.0);
    let pair = PairWithI32EncodedSize(header, request);
    let mut bytes: Vec<u8> = Vec::new();
    match pair.to_kafka_bytes(&mut bytes) {
        Ok(()) => {
            assert(bytes@ =~= PairWithI32EncodedSize::<RequestHeaderV2, Request>::wire(sent));
            Ok(bytes)
        },
        Err(e) => Err(e),
    }
}

/// The response that `s` holds for the request with the id `correlation_id`: behind a
/// header of the given version that carries the same id.
pub open spec fn parse_response<Response: KafkaResponse>(
    s: Seq<u8>,
    response_header_version: ApiVersion,
    correlation_id: i32,
) -> Result<Response::Value, ExchangeError> {
    match parse_correlation_id(s, response_header_version) {
        Ok((id, rest)) => if id != correlation_id {
            Err(ExchangeError::CorrelationMismatch { sent: correlation_id, received: id })
        } else {
            match Response::parse(rest) {
                Ok((v, _)) => Ok(v),
                Err(e) => Err(ExchangeError::Codec(e)),
            }
        },
        Err(e) => Err(ExchangeError::Codec(e)),
    }
}

/// Reads the response to the request with the id `correlation_id` from the bytes that a
/// broker sent behind their size.
pub fn decode_response<Response: KafkaResponse>(
    response: &[u8],
    response_header_version: ApiVersion,
    correlation_id: i32,
) -> (r: Result<Response, ExchangeError>)
    ensures
        match parse_response::<Response>(response@, response_header_version, correlation_id) {
            Ok(v) => r matches Ok(x) && x.value() == v,
            Err(e) => r matches Err(x) && x == e,
        },
{
    let mut reader: &[u8] = response;
    let id: i32 = match deserialize_response_header_and_get_correlation_id(
        &mut reader,
        response_header_version,
    ) {
        Ok(id) => id,
        Err(e) => {
            return Err(ExchangeError::Codec(e));
        },
    };
    if id != correlation_id {
        return Err(ExchangeError::CorrelationMismatch { sent: correlation_id, received: id });
    }
    match Response::from_kafka_bytes(&mut reader) {
        Ok(x) => Ok(x),
        Err(e) => Err(ExchangeError::Codec(e)),
    }
}

} // verus!
