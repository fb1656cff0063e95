//! Tests of the streaming chunk parser, the response decoders, and the
//! message round trip.

use ollama_native::abi::{message_from_json, message_to_json, Message, Role};
use ollama_native::chunk::{parse_chunks, parse_generate_chunks, parse_status_chunks};
use ollama_native::encode::encode_json_string;
use ollama_native::endpoint::{interpret_generate, interpret_version};
use ollama_native::error::OllamaError;
use ollama_native::parse::parse_json_str;

fn bytes(s: &str) -> Vec<u8> {
    s.as_bytes().to_vec()
}

#[test]
fn pull_parse_chunk_should_work() {
    let chunks = vec![
        r#"{"status":"pulling manifest"}"#,
        r#"{"status":"pulling 74701a8c35f6","digest":"sha256:74701a8c35f6c8d9a4b91f3f3497643001d63e0c7a84e085bed452548fa88d45","total":1321082688,"completed":1321082688}
            {"status":"pulling 966de95ca8a6","digest":"sha256:966de95ca8a62200913e3f8bfbf84c8494536f1b94b49166851e76644e966396","total":1429,"completed":1429}"#,
        r#"{"status":"pulling fcc5a6bec9da","digest":"sha256:fcc5a6bec9daf9b561a68827b67ab6088e1dba9d1fa2a50d7bbcc8384e0a265d","total":7711,"completed":7711}
            {"status":"pulling a70ff7e570d9","digest":"sha256:a70ff7e570d97baaf4e62ac6e6ad9975e04caa6d900d3742d37698494479e0cd","total":6016,"completed":6016}
            {"status":"pulling 4f659a1e86d7","digest":"sha256:4f659a1e86d7f5a33c389f7991e7224b7ee6ad0358b53437d54c02d2e1b1118d","total":485,"completed":485}
            {"status":"verifying sha256 digest"}"#,
        r#"{"status":"writing manifest"}
            {"status":"success"}"#,
    ];
    for chunk in chunks {
        let _ = parse_chunks(&bytes(chunk)).unwrap();
    }
}

#[test]
fn one_line_yields_one_item() {
    let items = parse_chunks(&bytes("{\"status\":\"pulling manifest\"}")).unwrap();
    assert_eq!(items.len(), 1);
    assert_eq!(items[0].status.as_str(), "pulling manifest");
    assert!(items[0].digest.is_none());
    assert!(items[0].total.is_none());
    assert!(items[0].completed.is_none());
}

#[test]
fn two_joined_lines_yield_two_items_in_order() {
    let chunk = "{\"status\":\"writing manifest\"}\n{\"status\":\"success\"}";
    let items = parse_chunks(&bytes(chunk)).unwrap();
    assert_eq!(items.len(), 2);
    assert_eq!(items[0].status.as_str(), "writing manifest");
    assert_eq!(items[1].status.as_str(), "success");
}

#[test]
fn trailing_whitespace_yields_no_spurious_item() {
    let chunk = "{\"status\":\"success\"}\n   \n";
    let items = parse_chunks(&bytes(chunk)).unwrap();
    assert_eq!(items.len(), 1);
    assert_eq!(items[0].status.as_str(), "success");
}

#[test]
fn empty_chunk_yields_no_items() {
    assert_eq!(parse_chunks(&bytes("")).unwrap().len(), 0);
    assert_eq!(parse_chunks(&bytes("  \n \t")).unwrap().len(), 0);
}

#[test]
fn invalid_utf8_ends_the_stream() {
    let err = parse_chunks(&vec![0xff, 0xfe]).expect_err("bad utf-8 fails");
    match err {
        OllamaError::StreamDecodingError(_) => {}
        other => panic!("expected StreamDecodingError, got {other:?}"),
    }
}

#[test]
fn bad_line_ends_the_stream() {
    let err = parse_chunks(&bytes("{\"status\":\"a\"}\nnot json")).expect_err("bad line fails");
    match err {
        OllamaError::StreamDecodingError(_) => {}
        other => panic!("expected StreamDecodingError, got {other:?}"),
    }
}

#[test]
fn pull_stream_ends_with_success() {
    // A streamed pull: a sequence of status updates whose last item reports
    // success, with progress fields only while a layer downloads.
    let wire = [
        "{\"status\":\"pulling manifest\"}",
        "{\"status\":\"downloading digestname\",\"digest\":\"digestname\",\"total\":2142590208,\"completed\":241970}",
        "{\"status\":\"verifying sha256 digest\"}\n{\"status\":\"writing manifest\"}",
        "{\"status\":\"removing any unused layers\"}\n{\"status\":\"success\"}\n",
    ];
    let mut all = Vec::new();
    for chunk in wire {
        all.extend(parse_chunks(&bytes(chunk)).unwrap());
    }
    assert_eq!(all.len(), 6);
    assert_eq!(all[1].digest.as_deref(), Some("digestname"));
    assert_eq!(all[1].total, Some(2142590208));
    assert_eq!(all[1].completed, Some(241970));
    assert_eq!(all.last().unwrap().status.as_str(), "success");
    assert!(all.last().unwrap().digest.is_none());
}

#[test]
fn status_chunks_decode_the_simple_shape() {
    let items = parse_status_chunks(&bytes("{\"status\":\"success\"}")).unwrap();
    assert_eq!(items.len(), 1);
    assert_eq!(items[0].status.as_str(), "success");
}

#[test]
fn generate_completion_scenario() {
    // Build the request for a model and prompt, then interpret the server's
    // single response: done must be true and the text non-empty.
    let req =
        ollama_native::requests::GenerateRequest::new("llama3.1:8b", "Tell me a joke about sharks");
    let body = encode_json_string(&req.to_json().unwrap());
    assert!(body.contains("\"model\":\"llama3.1:8b\""));
    let reply = "{\"model\":\"llama3.1:8b\",\"created_at\":\"2024-01-01T00:00:00Z\",\
                 \"response\":\"Why did the shark cross the reef? To get to the other tide.\",\
                 \"done\":true,\"done_reason\":\"stop\",\"total_duration\":123456789,\
                 \"eval_count\":17}";
    let resp = interpret_generate(200, reply).unwrap();
    assert!(resp.done);
    assert!(!resp.response.is_empty());
    assert_eq!(resp.eval_count, Some(17));
    assert_eq!(resp.context, None);
}

#[test]
fn generate_error_envelope_is_wrapped() {
    let err = interpret_generate(500, "{\"error\":\"model failed to load\"}").unwrap_err();
    assert_eq!(err, OllamaError::OllamaServerError("model failed to load".into()));
}

#[test]
fn generate_stream_chunk_decodes_line_by_line() {
    let one = "{\"model\":\"m\",\"created_at\":\"t\",\"response\":\"Why\",\"done\":false}";
    let items = parse_generate_chunks(&bytes(one)).unwrap();
    assert_eq!(items.len(), 1);
    assert_eq!(items[0].response.as_str(), "Why");
    assert!(!items[0].done);
    // Two newline-joined objects in one chunk give two items in order, a
    // trailing newline gives no spurious item, and an empty chunk gives
    // zero items without erring.
    let two = "{\"model\":\"m\",\"created_at\":\"t\",\"response\":\"Wh\",\"done\":false}\n\
               {\"model\":\"m\",\"created_at\":\"t\",\"response\":\"y\",\"done\":true}\n";
    let items = parse_generate_chunks(&bytes(two)).unwrap();
    assert_eq!(items.len(), 2);
    assert_eq!(items[0].response.as_str(), "Wh");
    assert!(items[1].done);
    assert_eq!(parse_generate_chunks(&bytes("")).unwrap().len(), 0);
}

#[test]
fn generate_model_response_decodes() {
    let body = "{\"model\":\"llama3.1:8b\",\"created_at\":\"t\",\"response\":\"\",\
                \"done_reason\":\"unload\",\"done\":true}";
    let resp = ollama_native::endpoint::interpret_generate_model(200, body).unwrap();
    assert_eq!(resp.done_reason.as_str(), "unload");
    assert!(resp.done);
    assert!(resp.response.is_empty());
}

#[test]
fn malformed_body_is_a_decoding_error() {
    match interpret_generate(200, "not json") {
        Err(OllamaError::DecodingError(_)) => {}
        other => panic!("expected DecodingError, got {other:?}"),
    }
    match interpret_generate(200, "{\"done\":true}") {
        Err(OllamaError::DecodingError(_)) => {}
        other => panic!("expected DecodingError, got {other:?}"),
    }
}

#[test]
fn version_decodes() {
    let resp = interpret_version(200, "{\"version\":\"0.5.1\"}").unwrap();
    assert_eq!(resp.version.as_str(), "0.5.1");
}

#[test]
fn message_round_trip_keeps_fields_and_absences() {
    let m = Message::user("hi");
    let encoded = encode_json_string(&message_to_json(&m));
    assert_eq!(encoded, "{\"role\":\"user\",\"content\":\"hi\"}");
    let back = message_from_json(&parse_json_str(&encoded).unwrap()).unwrap();
    assert!(matches!(back.role, Role::User));
    assert_eq!(back.content.as_str(), "hi");
    assert!(back.images.is_none());
    assert!(back.tool_calls.is_none());
}

#[test]
fn message_round_trip_keeps_images() {
    let m = Message::user("look").image("aGVsbG8=").image("d29ybGQ=");
    let encoded = encode_json_string(&message_to_json(&m));
    assert_eq!(
        encoded,
        "{\"role\":\"user\",\"content\":\"look\",\"images\":[\"aGVsbG8=\",\"d29ybGQ=\"]}"
    );
    let back = message_from_json(&parse_json_str(&encoded).unwrap()).unwrap();
    let images = back.images.unwrap();
    assert_eq!(images.len(), 2);
    assert_eq!(images[0].as_str(), "aGVsbG8=");
    assert_eq!(images[1].as_str(), "d29ybGQ=");
    assert!(back.tool_calls.is_none());
}

#[test]
fn message_round_trip_keeps_tool_calls() {
    let call = parse_json_str("{\"function\":{\"name\":\"get_current_weather\"}}").unwrap();
    let m = Message::assistant("calling").tool_call(call);
    let encoded = encode_json_string(&message_to_json(&m));
    let back = message_from_json(&parse_json_str(&encoded).unwrap()).unwrap();
    let calls = back.tool_calls.unwrap();
    assert_eq!(calls.len(), 1);
    assert_eq!(
        encode_json_string(&calls[0]),
        "{\"function\":{\"name\":\"get_current_weather\"}}"
    );
}

#[test]
fn list_local_models_decodes() {
    let body = "{\"models\":[{\"name\":\"llama3.1:8b\",\"modified_at\":\"t\",\"size\":4661224676,\
                \"digest\":\"sha256:42\",\"details\":{\"format\":\"gguf\",\"family\":\"llama\",\
                \"families\":[\"llama\"],\"parameter_size\":\"8.0B\",\
                \"quantization_level\":\"Q4_0\"}}]}";
    let resp = ollama_native::endpoint::interpret_list_local(200, body).unwrap();
    assert_eq!(resp.models.len(), 1);
    assert_eq!(resp.models[0].name.as_str(), "llama3.1:8b");
    assert_eq!(resp.models[0].size, 4661224676);
    assert_eq!(resp.models[0].details.family.as_str(), "llama");
}

#[test]
fn embeddings_keep_number_literals() {
    let body = "{\"model\":\"all-minilm\",\"embeddings\":[[0.010071029,-0.0017594862]],\
                \"total_duration\":14143917,\"load_duration\":1019500,\"prompt_eval_count\":8}";
    let v = parse_json_str(body).unwrap();
    let resp = ollama_native::model_info::GenerateEmbeddingsResponse::from_json(&v).unwrap();
    assert_eq!(resp.model.as_str(), "all-minilm");
    assert_eq!(resp.embeddings.len(), 1);
    assert_eq!(resp.embeddings[0][0].as_str(), "0.010071029");
    assert_eq!(resp.embeddings[0][1].as_str(), "-0.0017594862");
    assert_eq!(resp.prompt_eval_count, Some(8));
    // The literals are exactly what a floating-point reader would consume.
    assert_eq!(resp.embeddings[0][0].parse::<f64>().unwrap(), 0.010071029f64);
}
