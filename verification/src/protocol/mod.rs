//! The messages of the protocol, built from the codec's types.
use vstd::prelude::*;
use crate::codec::KafkaEncodable;
use crate::protocol::api_key::ApiKey;

pub mod api_key;
pub mod api_versions;
pub mod err;
pub mod headers;
pub mod networking;
pub mod produce;
pub mod records;
pub mod requests;
pub mod tags;

verus! {

/// The version of a request, a response or a header.
pub type ApiVersion = i16;

/// A request: it knows its key, its version and the version of the header of its response.
pub trait KafkaRequest: KafkaEncodable {
    /// The key of the request.
    spec fn api_key() -> ApiKey;

    /// The version of the request.
    spec fn version() -> ApiVersion;

    /// The version of the header that the response comes behind.
    spec fn response_header_version() -> ApiVersion;

    fn get_api_key() -> (key: ApiKey)
        ensures
            key == Self::api_key(),
    ;

    fn get_version() -> (version: ApiVersion)
        ensures
            version == Self::version(),
    ;

    fn get_response_header_version() -> (version: ApiVersion)
        ensures
            version == Self::response_header_version(),
    ;
}

/// A response.
pub trait KafkaResponse: KafkaEncodable {

}

} // verus!
