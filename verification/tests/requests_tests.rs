//! Tests of the request builders, the parameter bag, the format and tool
//! resolution, and the status-code policy.

use ollama_native::abi::Message;
use ollama_native::encode::encode_json_string;
use ollama_native::error::OllamaError;
use ollama_native::format::{Format, Tool};
use ollama_native::parameter::{JsonNumber, Parameter};
use ollama_native::requests::{
    ChatCompletionRequest, CopyModelRequest, DeleteModelRequest, GenerateRequest,
    OllamaRequest, PullModelRequest, RequestMethod, ShowModelInformationRequest, VersionRequest,
};

#[test]
fn is_default_should_work() {
    let mut p = Parameter::default();
    assert!(p.is_default());
    p.mirostat = Some(1);
    assert!(!p.is_default());
}

#[test]
fn every_parameter_field_breaks_default() {
    let setters: Vec<fn(&mut Parameter)> = vec![
        |p| p.mirostat(1),
        |p| p.mirostat_eta(JsonNumber::from_text("0.1").unwrap()),
        |p| p.mirostat_tau(JsonNumber::from_text("5.0").unwrap()),
        |p| p.num_ctx(2048),
        |p| p.repeat_last_n(64),
        |p| p.repeat_penalty(JsonNumber::from_text("1.1").unwrap()),
        |p| p.temperature(JsonNumber::from_text("0.8").unwrap()),
        |p| p.seed(42),
        |p| p.stop("END"),
        |p| p.num_predict(-1),
        |p| p.top_k(40),
        |p| p.top_p(JsonNumber::from_text("0.9").unwrap()),
        |p| p.min_p(JsonNumber::from_text("0.05").unwrap()),
    ];
    for set in setters {
        let mut p = Parameter::default();
        assert!(p.is_default());
        set(&mut p);
        assert!(!p.is_default());
    }
}

#[test]
fn format_literal_mode_is_case_insensitive() {
    for spelling in ["json", "JSON", "Json", "jSoN"] {
        match Format::from_text(spelling) {
            Format::Json => {}
            Format::Schema(_) => panic!("{spelling:?} should select the literal mode"),
        }
    }
}

#[test]
fn format_schema_round_trips_to_same_value() {
    let schema = "{\"type\": \"object\", \"properties\": {\"age\": {\"type\": \"integer\"}}}";
    let f = Format::from_text(schema);
    match &f {
        Format::Schema(s) => assert_eq!(s.as_str(), schema),
        Format::Json => panic!("a schema string must select the schema branch"),
    }
    let v = f.to_value().expect("valid schema resolves");
    let reference: serde_json::Value = serde_json::from_str(schema).unwrap();
    let encoded: serde_json::Value =
        serde_json::from_str(&encode_json_string(&v)).unwrap();
    assert_eq!(reference, encoded);
}

#[test]
fn format_invalid_schema_fails_at_send_time() {
    let f = Format::from_text("invalid format");
    // Building the format cannot fail; resolution does.
    let err = f.to_value().expect_err("malformed schema must fail");
    match &err {
        OllamaError::InvalidFormat(msg) => {
            assert!(err.message().contains("invalid format: "));
            assert!(msg.contains("invalid JSON schema"));
        }
        other => panic!("expected InvalidFormat, got {other:?}"),
    }
}

#[test]
fn tool_text_must_be_json() {
    let good = Tool::new("{\"type\": \"function\"}");
    assert!(good.to_value().is_ok());
    let bad = Tool::new("not json");
    match bad.to_value() {
        Err(OllamaError::InvalidFormat(msg)) => assert!(msg.contains("invalid tool format")),
        other => panic!("expected InvalidFormat, got {other:?}"),
    }
}

#[test]
fn generate_request_body_is_sparse() {
    let r = GenerateRequest::new("llama3.1:8b", "Tell me a joke about sharks");
    let body = encode_json_string(&r.to_json().unwrap());
    assert_eq!(
        body,
        "{\"model\":\"llama3.1:8b\",\"prompt\":\"Tell me a joke about sharks\",\"stream\":false}"
    );
    assert_eq!(r.path().as_str(), "/api/generate");
    assert_eq!(r.method(), RequestMethod::Post);
}

#[test]
fn generate_request_with_options() {
    let mut r = GenerateRequest::new("m", "p");
    r.options.seed(42);
    r.options.temperature(JsonNumber::from_text("0.8").unwrap());
    r.keep_alive = Some(300);
    r.raw = Some(true);
    let body = encode_json_string(&r.to_json().unwrap());
    assert_eq!(
        body,
        "{\"model\":\"m\",\"prompt\":\"p\",\"options\":{\"temperature\":0.8,\"seed\":42},\
         \"stream\":false,\"raw\":true,\"keep_alive\":300}"
    );
}

#[test]
fn chat_request_body_holds_messages_in_order() {
    let mut r = ChatCompletionRequest::new("llama3.1:8b");
    r.messages.push(Message::system("You are an expert on sharks"));
    r.messages.push(Message::user("Tell me a joke about sharks?"));
    let body = encode_json_string(&r.to_json().unwrap());
    assert_eq!(
        body,
        "{\"model\":\"llama3.1:8b\",\"messages\":[\
         {\"role\":\"system\",\"content\":\"You are an expert on sharks\"},\
         {\"role\":\"user\",\"content\":\"Tell me a joke about sharks?\"}],\"stream\":false}"
    );
}

#[test]
fn chat_request_rejects_bad_tool_lazily() {
    let mut r = ChatCompletionRequest::new("m");
    r.tools.push(Tool::new("not json"));
    match r.to_json() {
        Err(OllamaError::InvalidFormat(_)) => {}
        other => panic!("expected InvalidFormat, got {other:?}"),
    }
}

#[test]
fn unload_request_zeroes_keep_alive() {
    let r = ChatCompletionRequest::new("m").to_unload_model();
    assert_eq!(r.keep_alive, Some(0));
    let body = encode_json_string(&r.to_json().unwrap());
    assert_eq!(body, "{\"model\":\"m\",\"messages\":[],\"stream\":false,\"keep_alive\":0}");
}

#[test]
fn paths_and_methods_follow_the_table() {
    assert_eq!(ChatCompletionRequest::new("m").path().as_str(), "/api/chat");
    assert_eq!(CopyModelRequest::new("a", "b").path().as_str(), "/api/copy");
    assert_eq!(CopyModelRequest::new("a", "b").method(), RequestMethod::Post);
    assert_eq!(DeleteModelRequest::new("m").path().as_str(), "/api/delete");
    assert_eq!(DeleteModelRequest::new("m").method(), RequestMethod::Delete);
    assert_eq!(PullModelRequest::new("m").path().as_str(), "/api/pull");
    assert_eq!(ShowModelInformationRequest::new("m").path().as_str(), "/api/show");
    assert_eq!(VersionRequest {}.path().as_str(), "/api/version");
    assert_eq!(VersionRequest {}.method(), RequestMethod::Get);
    let blob = ollama_native::requests::CheckBlobExistsRequest::new("sha256:abc");
    assert_eq!(blob.path().as_str(), "/api/blobs/sha256:abc");
    assert_eq!(blob.method(), RequestMethod::Head);
}

#[test]
fn pull_request_omits_unset_insecure() {
    let r = PullModelRequest::new("llama3.2");
    let body = encode_json_string(&r.to_json());
    assert_eq!(body, "{\"model\":\"llama3.2\",\"stream\":false}");
    let mut insecure = PullModelRequest::new("llama3.2");
    insecure.insecure = Some(true);
    let body = encode_json_string(&insecure.to_json());
    assert_eq!(body, "{\"model\":\"llama3.2\",\"insecure\":true,\"stream\":false}");
}

#[test]
fn generate_load_and_unload_presets() {
    let mut r = GenerateRequest::new("llama3.1:8b", "ignored");
    r.system = Some("also cleared".to_string());
    let load = r.clone().to_load_model();
    assert_eq!(
        encode_json_string(&load.to_json().unwrap()),
        "{\"model\":\"llama3.1:8b\",\"prompt\":\"\",\"stream\":false}"
    );
    let unload = r.to_unload_model();
    assert_eq!(
        encode_json_string(&unload.to_json().unwrap()),
        "{\"model\":\"llama3.1:8b\",\"prompt\":\"\",\"stream\":false,\"keep_alive\":0}"
    );
}

#[test]
fn copy_nonexistent_model_is_a_domain_error() {
    // A 404 on the copy endpoint is the ModelDoesNotExist error, not a
    // generic server error.
    let err = ollama_native::endpoint::interpret_copy(404).expect_err("404 fails");
    assert_eq!(err, OllamaError::ModelDoesNotExist);
    assert_eq!(err.message().as_str(), "model does not exist");
    assert!(ollama_native::endpoint::interpret_copy(200).is_ok());
    match ollama_native::endpoint::interpret_copy(500) {
        Err(OllamaError::UnknownError(m)) => {
            assert_eq!(m.as_str(), "/api/copy got unknown status code: 500")
        }
        other => panic!("expected UnknownError, got {other:?}"),
    }
}

#[test]
fn delete_nonexistent_model_is_a_domain_error() {
    let err = ollama_native::endpoint::interpret_delete(404).expect_err("404 fails");
    assert_eq!(err, OllamaError::ModelDoesNotExist);
}

#[test]
fn unseen_blob_digest_is_a_domain_error() {
    let err = ollama_native::endpoint::interpret_check_blob(404).expect_err("404 fails");
    assert_eq!(err, OllamaError::BlobDoesNotExist);
    assert_eq!(err.message().as_str(), "blob does not exist");
    assert!(ollama_native::endpoint::interpret_check_blob(200).is_ok());
}

#[test]
fn blob_upload_digest_mismatch_is_a_domain_error() {
    assert!(ollama_native::endpoint::interpret_push_blob(201).is_ok());
    let err = ollama_native::endpoint::interpret_push_blob(400).expect_err("400 fails");
    assert_eq!(err, OllamaError::UnexpectedDigest);
}

#[test]
fn error_messages_render_each_kind() {
    assert_eq!(
        OllamaError::RequestError("connection refused".into()).message().as_str(),
        "request error: connection refused"
    );
    assert_eq!(OllamaError::FileError("missing".into()).message().as_str(), "file error: missing");
    assert_eq!(
        OllamaError::OllamaServerError("boom".into()).message().as_str(),
        "ollama error: boom"
    );
    assert_eq!(
        OllamaError::StreamDecodingError("bad".into()).message().as_str(),
        "stream decoding error: bad"
    );
    assert_eq!(OllamaError::UnexpectedDigest.message().as_str(), "unexpected digest");
}
