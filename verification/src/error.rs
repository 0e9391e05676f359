//! The error type of the library.

use vstd::prelude::*;
use vstd::std_specs::convert::FromSpecImpl;

verus! {

#[verifier::external_type_specification]
#[verifier::external_body]
pub struct ExIoError(std::io::Error);

#[verifier::external_type_specification]
#[verifier::external_body]
pub struct ExTungsteniteError(tokio_tungstenite::tungstenite::Error);

#[verifier::external_type_specification]
#[verifier::external_body]
pub struct ExEncodeError(prost::EncodeError);

#[verifier::external_type_specification]
#[verifier::external_body]
pub struct ExDecodeError(prost::DecodeError);

#[verifier::external_type_specification]
#[verifier::external_body]
pub struct ExRedisError(redis::RedisError);

#[verifier::external_type_specification]
#[verifier::external_body]
pub struct ExAnyhowError(anyhow::Error);

/// Everything that can go wrong in the library and in the services built on
/// it.
#[derive(Debug)]
pub enum BaseError {
    Io(std::io::Error),
    Tungstenite(tokio_tungstenite::tungstenite::Error),
    ProstEncode(prost::EncodeError),
    ProstDecode(prost::DecodeError),
    Redis(redis::RedisError),
    Lock,
    Channel,
    Other(anyhow::Error),
}

impl From<std::io::Error> for BaseError {
    fn from(e: std::io::Error) -> (r: BaseError) {
        BaseError::Io(e)
    }
}

impl FromSpecImpl<std::io::Error> for BaseError {
    open spec fn obeys_from_spec() -> bool {
        true
    }

    open spec fn from_spec(e: std::io::Error) -> BaseError {
        BaseError::Io(e)
    }
}

impl From<tokio_tungstenite::tungstenite::Error> for BaseError {
    fn from(e: tokio_tungstenite::tungstenite::Error) -> (r: BaseError) {
        BaseError::Tungstenite(e)
    }
}

impl FromSpecImpl<tokio_tungstenite::tungstenite::Error> for BaseError {
    open spec fn obeys_from_spec() -> bool {
        true
    }

    open spec fn from_spec(e: tokio_tungstenite::tungstenite::Error) -> BaseError {
        BaseError::Tungstenite(e)
    }
}

impl From<prost::EncodeError> for BaseError {
    fn from(e: prost::EncodeError) -> (r: BaseError) {
        BaseError::ProstEncode(e)
    }
}

impl FromSpecImpl<prost::EncodeError> for BaseError {
    open spec fn obeys_from_spec() -> bool {
        true
    }

    open spec fn from_spec(e: prost::EncodeError) -> BaseError {
        BaseError::ProstEncode(e)
    }
}

impl From<prost::DecodeError> for BaseError {
    fn from(e: prost::DecodeError) -> (r: BaseError) {
        BaseError::ProstDecode(e)
    }
}

impl FromSpecImpl<prost::DecodeError> for BaseError {
    open spec fn obeys_from_spec() -> bool {
        true
    }

    open spec fn from_spec(e: prost::DecodeError) -> BaseError {
        BaseError::ProstDecode(e)
    }
}

impl From<redis::RedisError> for BaseError {
    fn from(e: redis::RedisError) -> (r: BaseError) {
        BaseError::Redis(e)
    }
}

impl FromSpecImpl<redis::RedisError> for BaseError {
    open spec fn obeys_from_spec() -> bool {
        true
    }

    open spec fn from_spec(e: redis::RedisError) -> BaseError {
        BaseError::Redis(e)
    }
}

impl From<anyhow::Error> for BaseError {
    fn from(e: anyhow::Error) -> (r: BaseError) {
        BaseError::Other(e)
    }
}

impl FromSpecImpl<anyhow::Error> for BaseError {
    open spec fn obeys_from_spec() -> bool {
        true
    }

    open spec fn from_spec(e: anyhow::Error) -> BaseError {
        BaseError::Other(e)
    }
}

} // verus!
