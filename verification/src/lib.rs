//! A typed client library for a local large-language-model server's HTTP API.
//!
//! The library builds the JSON request body of each endpoint, decodes JSON
//! response bodies (including newline-delimited streaming responses), and
//! maps HTTP status codes to a typed error taxonomy. The JSON grammar, the
//! encoder and parser, the request and response codecs, and the status-code
//! policy are all verified; the HTTP transport itself lives outside this
//! crate and hands in plain bytes and status codes.

pub mod abi;
pub mod chunk;
pub mod config;
pub mod decode;
pub mod encode;
pub mod endpoint;
pub mod error;
pub mod format;
pub mod json;
pub mod model_info;
pub mod num;
pub mod parameter;
pub mod parse;
pub mod requests;
pub mod responses;
pub mod roundtrip;
pub mod text;

pub use abi::{Message, Role};
pub use config::OllamaConfig;
pub use error::OllamaError;
pub use format::{Format, Tool};
pub use model_info::{
    GenerateEmbeddingsResponse, ListLocalModelsResponse, ListRunningModelsResponse,
    ShowModelInformationResponse,
};
pub use parameter::Parameter;
pub use responses::{
    ChatCompletionModelResponse, ChatCompletionResponse, CreateModelResponse,
    GenerateCompletionModelResponse, GenerateResponse, PullModelResponse,
    PullModelStreamingResponse, PushModelResponse, PushModelStreamingResponse, VersionResponse,
};
