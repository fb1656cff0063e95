//! Interpretation of HTTP responses, endpoint by endpoint: which status
//! codes mean success, which map to domain errors, and how the body is
//! decoded.

use crate::decode::str_field;
use crate::error::OllamaError;
use crate::json::JsonValue;
use crate::num::dec_rep;
use crate::parse::parse_json;
use crate::responses::{
    chat_model_response_decodable, chat_response_decodable, generate_model_response_decodable,
    generate_model_response_matches, generate_response_decodable, generate_response_matches,
    server_error_from_json, ChatCompletionModelResponse, ChatCompletionResponse,
    CheckBlobExistsResponse, CopyModelResponse, CreateModelResponse, DeleteModelResponse,
    GenerateCompletionModelResponse, GenerateResponse, PullModelResponse, PushBlobResponse,
    PushModelResponse, VersionResponse,
};
use crate::text::chars_to_string;
use vstd::prelude::*;

verus! {

/// Parses a response body as one JSON document, or gives the decoding error
/// that ends the call.
pub fn parse_body(body: &str) -> (r: Result<JsonValue, OllamaError>)
    ensures
        match r {
            Ok(v) => parse_json(body@) == Some(v@),
            Err(e) => parse_json(body@) is None && (e matches OllamaError::DecodingError(m) && m@
                == "response body is not valid JSON"@),
        },
{
    match crate::parse::parse_json_str(body) {
        Some(v) => Ok(v),
        None => Err(OllamaError::DecodingError(String::from_str("response body is not valid JSON"))),
    }
}

/// What a non-success body means: the server's error envelope when it can
/// be read, a decoding error otherwise.
pub open spec fn is_server_error_of(body: Seq<char>, e: OllamaError) -> bool {
    match parse_json(body) {
        Some(j) => match str_field(j, "error"@) {
            Some(msg) => e matches OllamaError::OllamaServerError(m) && m@ == msg,
            None => e matches OllamaError::DecodingError(m) && m@
                == "unexpected response shape"@,
        },
        None => e matches OllamaError::DecodingError(m) && m@
            == "response body is not valid JSON"@,
    }
}

/// Reads a non-success body as the server's error envelope and wraps it.
pub fn server_error(body: &str) -> (e: OllamaError)
    ensures
        is_server_error_of(body@, e),
{
    match parse_body(body) {
        Ok(v) => match server_error_from_json(&v) {
            Some(envelope) => OllamaError::OllamaServerError(envelope.error),
            None => OllamaError::DecodingError(String::from_str("unexpected response shape")),
        },
        Err(e) => e,
    }
}

/// The message of an unexpected status code on the given path.
pub open spec fn spec_unknown_status(path: Seq<char>, status: u16) -> Seq<char> {
    path + " got unknown status code: "@ + dec_rep(status as nat)
}

/// Builds the message of an unexpected status code.
pub fn unknown_status(path: &str, status: u16) -> (e: OllamaError)
    ensures
        e == OllamaError::UnknownError(e->UnknownError_0),
        e->UnknownError_0@ == spec_unknown_status(path@, status),
{
    let mut chars = crate::text::str_to_chars(path);
    let mut mid = crate::text::str_to_chars(" got unknown status code: ");
    chars.append(&mut mid);
    crate::num::push_dec_u64(status as u64, &mut chars);
    OllamaError::UnknownError(chars_to_string(&chars))
}

/// Interprets a generate-completion response: on 200 the body must decode
/// as a [`GenerateResponse`]; on any other status the body is read as the
/// server's error envelope.
pub fn interpret_generate(status: u16, body: &str) -> (r: Result<GenerateResponse, OllamaError>)
    ensures
        r is Ok ==> status == 200,
        status == 200 ==> (match parse_json(body@) {
            Some(j) => {
                if generate_response_decodable(j) {
                    r matches Ok(g) && generate_response_matches(j, g)
                } else {
                    r matches Err(e) && e is DecodingError
                }
            },
            None => r matches Err(e) && e is DecodingError,
        }),
        status != 200 ==> (r matches Err(e) && is_server_error_of(body@, e)),
{
    if status == 200 {
        let v = match parse_body(body) {
            Ok(v) => v,
            Err(e) => {
                return Err(e);
            },
        };
        match GenerateResponse::from_json(&v) {
            Some(g) => Ok(g),
            None => Err(OllamaError::DecodingError(String::from_str("unexpected response shape"))),
        }
    } else {
        Err(server_error(body))
    }
}

/// Interprets a chat-completion response, as [`interpret_generate`] does
/// for its type.
pub fn interpret_chat(status: u16, body: &str) -> (r: Result<ChatCompletionResponse, OllamaError>)
    ensures
        r is Ok ==> status == 200,
        status == 200 ==> (match parse_json(body@) {
            Some(j) => {
                if chat_response_decodable(j) {
                    r matches Ok(g) && crate::responses::chat_response_matches(j, g)
                } else {
                    r matches Err(e) && e is DecodingError
                }
            },
            None => r matches Err(e) && e is DecodingError,
        }),
        status != 200 ==> (r matches Err(e) && is_server_error_of(body@, e)),
{
    if status == 200 {
        let v = match parse_body(body) {
            Ok(v) => v,
            Err(e) => {
                return Err(e);
            },
        };
        match ChatCompletionResponse::from_json(&v) {
            Some(g) => Ok(g),
            None => Err(OllamaError::DecodingError(String::from_str("unexpected response shape"))),
        }
    } else {
        Err(server_error(body))
    }
}

/// Interprets a load- or unload-model response of the chat endpoint.
pub fn interpret_chat_model(status: u16, body: &str) -> (r: Result<
    ChatCompletionModelResponse,
    OllamaError,
>)
    ensures
        r is Ok ==> status == 200,
        status == 200 ==> (match parse_json(body@) {
            Some(j) => {
                if chat_model_response_decodable(j) {
                    r matches Ok(g) && crate::responses::chat_model_response_matches(j, g)
                } else {
                    r matches Err(e) && e is DecodingError
                }
            },
            None => r matches Err(e) && e is DecodingError,
        }),
        status != 200 ==> (r matches Err(e) && is_server_error_of(body@, e)),
{
    if status == 200 {
        let v = match parse_body(body) {
            Ok(v) => v,
            Err(e) => {
                return Err(e);
            },
        };
        match ChatCompletionModelResponse::from_json(&v) {
            Some(g) => Ok(g),
            None => Err(OllamaError::DecodingError(String::from_str("unexpected response shape"))),
        }
    } else {
        Err(server_error(body))
    }
}

/// Interprets a load- or unload-model response of the generate endpoint.
pub fn interpret_generate_model(status: u16, body: &str) -> (r: Result<
    GenerateCompletionModelResponse,
    OllamaError,
>)
    ensures
        r is Ok ==> status == 200,
        status == 200 ==> (match parse_json(body@) {
            Some(j) => {
                if generate_model_response_decodable(j) {
                    r matches Ok(g) && generate_model_response_matches(j, g)
                } else {
                    r matches Err(e) && e is DecodingError
                }
            },
            None => r matches Err(e) && e is DecodingError,
        }),
        status != 200 ==> (r matches Err(e) && is_server_error_of(body@, e)),
{
    if status == 200 {
        let v = match parse_body(body) {
            Ok(v) => v,
            Err(e) => {
                return Err(e);
            },
        };
        match GenerateCompletionModelResponse::from_json(&v) {
            Some(g) => Ok(g),
            None => Err(OllamaError::DecodingError(String::from_str("unexpected response shape"))),
        }
    } else {
        Err(server_error(body))
    }
}

/// Interprets a create-model response.
pub fn interpret_create(status: u16, body: &str) -> (r: Result<CreateModelResponse, OllamaError>)
    ensures
        r is Ok ==> status == 200,
        status == 200 ==> (match parse_json(body@) {
            Some(j) => {
                if str_field(j, "status"@) is Some {
                    r matches Ok(g) && str_field(j, "status"@) == Some(g.status@)
                } else {
                    r matches Err(e) && e is DecodingError
                }
            },
            None => r matches Err(e) && e is DecodingError,
        }),
        status != 200 ==> (r matches Err(e) && is_server_error_of(body@, e)),
{
    if status == 200 {
        let v = match parse_body(body) {
            Ok(v) => v,
            Err(e) => {
                return Err(e);
            },
        };
        match CreateModelResponse::from_json(&v) {
            Some(g) => Ok(g),
            None => Err(OllamaError::DecodingError(String::from_str("unexpected response shape"))),
        }
    } else {
        Err(server_error(body))
    }
}

/// Interprets a pull-model response.
pub fn interpret_pull(status: u16, body: &str) -> (r: Result<PullModelResponse, OllamaError>)
    ensures
        r is Ok ==> status == 200,
        status == 200 ==> (match parse_json(body@) {
            Some(j) => {
                if str_field(j, "status"@) is Some {
                    r matches Ok(g) && str_field(j, "status"@) == Some(g.status@)
                } else {
                    r matches Err(e) && e is DecodingError
                }
            },
            None => r matches Err(e) && e is DecodingError,
        }),
        status != 200 ==> (r matches Err(e) && is_server_error_of(body@, e)),
{
    if status == 200 {
        let v = match parse_body(body) {
            Ok(v) => v,
            Err(e) => {
                return Err(e);
            },
        };
        match PullModelResponse::from_json(&v) {
            Some(g) => Ok(g),
            None => Err(OllamaError::DecodingError(String::from_str("unexpected response shape"))),
        }
    } else {
        Err(server_error(body))
    }
}

/// Interprets a push-model response.
pub fn interpret_push(status: u16, body: &str) -> (r: Result<PushModelResponse, OllamaError>)
    ensures
        r is Ok ==> status == 200,
        status == 200 ==> (match parse_json(body@) {
            Some(j) => {
                if str_field(j, "status"@) is Some {
                    r matches Ok(g) && str_field(j, "status"@) == Some(g.status@)
                } else {
                    r matches Err(e) && e is DecodingError
                }
            },
            None => r matches Err(e) && e is DecodingError,
        }),
        status != 200 ==> (r matches Err(e) && is_server_error_of(body@, e)),
{
    if status == 200 {
        let v = match parse_body(body) {
            Ok(v) => v,
            Err(e) => {
                return Err(e);
            },
        };
        match PushModelResponse::from_json(&v) {
            Some(g) => Ok(g),
            None => Err(OllamaError::DecodingError(String::from_str("unexpected response shape"))),
        }
    } else {
        Err(server_error(body))
    }
}

/// Interprets a version response.
pub fn interpret_version(status: u16, body: &str) -> (r: Result<VersionResponse, OllamaError>)
    ensures
        r is Ok ==> status == 200,
        status == 200 ==> (match parse_json(body@) {
            Some(j) => {
                if str_field(j, "version"@) is Some {
                    r matches Ok(g) && str_field(j, "version"@) == Some(g.version@)
                } else {
                    r matches Err(e) && e is DecodingError
                }
            },
            None => r matches Err(e) && e is DecodingError,
        }),
        status != 200 ==> (r matches Err(e) && is_server_error_of(body@, e)),
{
    if status == 200 {
        let v = match parse_body(body) {
            Ok(v) => v,
            Err(e) => {
                return Err(e);
            },
        };
        match VersionResponse::from_json(&v) {
            Some(g) => Ok(g),
            None => Err(OllamaError::DecodingError(String::from_str("unexpected response shape"))),
        }
    } else {
        Err(server_error(body))
    }
}

/// Interprets a copy-model response: 200 succeeds, 404 means the source
/// model does not exist, anything else is an unexpected status.
pub fn interpret_copy(status: u16) -> (r: Result<CopyModelResponse, OllamaError>)
    ensures
        r is Ok <==> status == 200,
        status == 404 ==> r == Err::<CopyModelResponse, _>(OllamaError::ModelDoesNotExist),
        status != 200 && status != 404 ==> (r matches Err(e) && e matches
            OllamaError::UnknownError(m) && m@ == spec_unknown_status("/api/copy"@, status)),
{
    if status == 200 {
        Ok(CopyModelResponse {  })
    } else if status == 404 {
        Err(OllamaError::ModelDoesNotExist)
    } else {
        Err(unknown_status("/api/copy", status))
    }
}

/// Interprets a delete-model response: 200 succeeds, 404 means the model
/// does not exist, anything else is an unexpected status.
pub fn interpret_delete(status: u16) -> (r: Result<DeleteModelResponse, OllamaError>)
    ensures
        r is Ok <==> status == 200,
        status == 404 ==> r == Err::<DeleteModelResponse, _>(OllamaError::ModelDoesNotExist),
        status != 200 && status != 404 ==> (r matches Err(e) && e matches
            OllamaError::UnknownError(m) && m@ == spec_unknown_status("/api/delete"@, status)),
{
    if status == 200 {
        Ok(DeleteModelResponse {  })
    } else if status == 404 {
        Err(OllamaError::ModelDoesNotExist)
    } else {
        Err(unknown_status("/api/delete", status))
    }
}

/// Interprets a blob-existence response: 200 means the blob exists, 404
/// means it does not, anything else is an unexpected status.
pub fn interpret_check_blob(status: u16) -> (r: Result<CheckBlobExistsResponse, OllamaError>)
    ensures
        r is Ok <==> status == 200,
        status == 404 ==> r == Err::<CheckBlobExistsResponse, _>(OllamaError::BlobDoesNotExist),
        status != 200 && status != 404 ==> (r matches Err(e) && e matches
            OllamaError::UnknownError(m) && m@ == spec_unknown_status("/api/blobs/"@, status)),
{
    if status == 200 {
        Ok(CheckBlobExistsResponse {  })
    } else if status == 404 {
        Err(OllamaError::BlobDoesNotExist)
    } else {
        Err(unknown_status("/api/blobs/", status))
    }
}

/// Interprets a blob-upload response: 201 means the blob was created, 400
/// means the digest did not match, anything else is an unexpected status.
pub fn interpret_push_blob(status: u16) -> (r: Result<PushBlobResponse, OllamaError>)
    ensures
        r is Ok <==> status == 201,
        status == 400 ==> r == Err::<PushBlobResponse, _>(OllamaError::UnexpectedDigest),
        status != 201 && status != 400 ==> (r matches Err(e) && e matches
            OllamaError::UnknownError(m) && m@ == spec_unknown_status("/api/blobs/"@, status)),
{
    if status == 201 {
        Ok(PushBlobResponse {  })
    } else if status == 400 {
        Err(OllamaError::UnexpectedDigest)
    } else {
        Err(unknown_status("/api/blobs/", status))
    }
}

/// Interprets a local-model list response.
pub fn interpret_list_local(status: u16, body: &str) -> (r: Result<crate::model_info::ListLocalModelsResponse, OllamaError>)
    ensures
        r is Ok ==> status == 200,
        status == 200 ==> (match parse_json(body@) {
            Some(j) => {
                if crate::model_info::list_local_decodable(j) {
                    r matches Ok(g) && crate::model_info::list_local_matches(j, g)
                } else {
                    r matches Err(e) && e is DecodingError
                }
            },
            None => r matches Err(e) && e is DecodingError,
        }),
        status != 200 ==> (r matches Err(e) && is_server_error_of(body@, e)),
{
    if status == 200 {
        let v = match parse_body(body) {
            Ok(v) => v,
            Err(e) => {
                return Err(e);
            },
        };
        match crate::model_info::ListLocalModelsResponse::from_json(&v) {
            Some(g) => Ok(g),
            None => Err(OllamaError::DecodingError(String::from_str("unexpected response shape"))),
        }
    } else {
        Err(server_error(body))
    }
}

/// Interprets a running-model list response.
pub fn interpret_list_running(status: u16, body: &str) -> (r: Result<crate::model_info::ListRunningModelsResponse, OllamaError>)
    ensures
        r is Ok ==> status == 200,
        status == 200 ==> (match parse_json(body@) {
            Some(j) => {
                if crate::model_info::list_running_decodable(j) {
                    r matches Ok(g) && crate::model_info::list_running_matches(j, g)
                } else {
                    r matches Err(e) && e is DecodingError
                }
            },
            None => r matches Err(e) && e is DecodingError,
        }),
        status != 200 ==> (r matches Err(e) && is_server_error_of(body@, e)),
{
    if status == 200 {
        let v = match parse_body(body) {
            Ok(v) => v,
            Err(e) => {
                return Err(e);
            },
        };
        match crate::model_info::ListRunningModelsResponse::from_json(&v) {
            Some(g) => Ok(g),
            None => Err(OllamaError::DecodingError(String::from_str("unexpected response shape"))),
        }
    } else {
        Err(server_error(body))
    }
}

/// Interprets a model-information response.
pub fn interpret_show_info(status: u16, body: &str) -> (r: Result<crate::model_info::ShowModelInformationResponse, OllamaError>)
    ensures
        r is Ok ==> status == 200,
        status == 200 ==> (match parse_json(body@) {
            Some(j) => {
                if crate::model_info::show_info_decodable(j) {
                    r matches Ok(g) && crate::model_info::show_info_matches(j, g)
                } else {
                    r matches Err(e) && e is DecodingError
                }
            },
            None => r matches Err(e) && e is DecodingError,
        }),
        status != 200 ==> (r matches Err(e) && is_server_error_of(body@, e)),
{
    if status == 200 {
        let v = match parse_body(body) {
            Ok(v) => v,
            Err(e) => {
                return Err(e);
            },
        };
        match crate::model_info::ShowModelInformationResponse::from_json(&v) {
            Some(g) => Ok(g),
            None => Err(OllamaError::DecodingError(String::from_str("unexpected response shape"))),
        }
    } else {
        Err(server_error(body))
    }
}

/// Interprets a batch-embeddings response.
pub fn interpret_embeddings(status: u16, body: &str) -> (r: Result<crate::model_info::GenerateEmbeddingsResponse, OllamaError>)
    ensures
        r is Ok ==> status == 200,
        status == 200 ==> (match parse_json(body@) {
            Some(j) => {
                if crate::model_info::embeddings_response_decodable(j) {
                    r matches Ok(g) && crate::model_info::embeddings_response_matches(j, g)
                } else {
                    r matches Err(e) && e is DecodingError
                }
            },
            None => r matches Err(e) && e is DecodingError,
        }),
        status != 200 ==> (r matches Err(e) && is_server_error_of(body@, e)),
{
    if status == 200 {
        let v = match parse_body(body) {
            Ok(v) => v,
            Err(e) => {
                return Err(e);
            },
        };
        match crate::model_info::GenerateEmbeddingsResponse::from_json(&v) {
            Some(g) => Ok(g),
            None => Err(OllamaError::DecodingError(String::from_str("unexpected response shape"))),
        }
    } else {
        Err(server_error(body))
    }
}

/// Interprets a single-embedding response.
pub fn interpret_embedding(status: u16, body: &str) -> (r: Result<
    crate::model_info::GenerateEmbeddingResponse,
    OllamaError,
>)
    ensures
        r is Ok ==> status == 200,
        status == 200 ==> (match parse_json(body@) {
            Some(j) => {
                if crate::model_info::embedding_response_decodable(j) {
                    r matches Ok(g) && crate::model_info::embedding_response_matches(j, g)
                } else {
                    r matches Err(e) && e is DecodingError
                }
            },
            None => r matches Err(e) && e is DecodingError,
        }),
        status != 200 ==> (r matches Err(e) && is_server_error_of(body@, e)),
{
    if status == 200 {
        let v = match parse_body(body) {
            Ok(v) => v,
            Err(e) => {
                return Err(e);
            },
        };
        match crate::model_info::GenerateEmbeddingResponse::from_json(&v) {
            Some(g) => Ok(g),
            None => Err(OllamaError::DecodingError(String::from_str("unexpected response shape"))),
        }
    } else {
        Err(server_error(body))
    }
}

} // verus!
