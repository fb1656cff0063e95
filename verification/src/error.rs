//! The unified error taxonomy of the library.

use vstd::prelude::*;

verus! {

/// Everything that can go wrong in a call: transport failures, body decode
/// failures, a malformed caller-supplied format or tool string, server-side
/// errors, and the domain errors that specific status codes denote.
#[derive(Debug, Clone, PartialEq, Eq)]
pub enum OllamaError {
    /// The HTTP request itself failed (connection, DNS, TLS, ...).
    RequestError(String),
    /// The response body could not be decoded as the expected JSON shape.
    DecodingError(String),
    /// A line of a streamed response failed UTF-8 or JSON decoding.
    StreamDecodingError(String),
    /// A caller-supplied format or tool string was not valid JSON.
    InvalidFormat(String),
    /// The server answered with an error envelope.
    OllamaServerError(String),
    /// The requested model does not exist on the server.
    ModelDoesNotExist,
    /// The requested blob does not exist on the server.
    BlobDoesNotExist,
    /// The digest of an uploaded blob did not match the expected value.
    UnexpectedDigest,
    /// A local file operation failed during a blob upload.
    FileError(String),
    /// An unexpected status code, outside the documented mapping.
    UnknownError(String),
}

impl OllamaError {
    /// The fixed message text of each error kind, with the cause appended
    /// where one is carried.
    pub open spec fn spec_message(self) -> Seq<char> {
        match self {
            OllamaError::RequestError(c) => "request error: "@ + c@,
            OllamaError::DecodingError(c) => "decoding error: "@ + c@,
            OllamaError::StreamDecodingError(c) => "stream decoding error: "@ + c@,
            OllamaError::InvalidFormat(c) => "invalid format: "@ + c@,
            OllamaError::OllamaServerError(c) => "ollama error: "@ + c@,
            OllamaError::ModelDoesNotExist => "model does not exist"@,
            OllamaError::BlobDoesNotExist => "blob does not exist"@,
            OllamaError::UnexpectedDigest => "unexpected digest"@,
            OllamaError::FileError(c) => "file error: "@ + c@,
            OllamaError::UnknownError(c) => "unknown error: "@ + c@,
        }
    }

    /// A human-readable rendering of the error.
    pub fn message(&self) -> (r: String)
        ensures
            r@ == self.spec_message(),
    {
        match self {
            OllamaError::RequestError(c) => String::from_str("request error: ").concat(
                c.as_str(),
            ),
            OllamaError::DecodingError(c) => String::from_str("decoding error: ").concat(
                c.as_str(),
            ),
            OllamaError::StreamDecodingError(c) => String::from_str(
                "stream decoding error: ",
            ).concat(c.as_str()),
            OllamaError::InvalidFormat(c) => String::from_str("invalid format: ").concat(
                c.as_str(),
            ),
            OllamaError::OllamaServerError(c) => String::from_str("ollama error: ").concat(
                c.as_str(),
            ),
            OllamaError::ModelDoesNotExist => String::from_str("model does not exist"),
            OllamaError::BlobDoesNotExist => String::from_str("blob does not exist"),
            OllamaError::UnexpectedDigest => String::from_str("unexpected digest"),
            OllamaError::FileError(c) => String::from_str("file error: ").concat(c.as_str()),
            OllamaError::UnknownError(c) => String::from_str("unknown error: ").concat(c.as_str()),
        }
    }
}

/// The error envelope that the server sends with a non-success status.
#[derive(Debug, Clone)]
pub struct OllamaServerError {
    pub error: String,
}

} // verus!
