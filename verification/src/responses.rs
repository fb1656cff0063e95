//! The response type of each completion, model-transfer and version
//! endpoint, with its decoder from the wire object.

use crate::abi::{message_decodable, message_from_json, role_chars, spec_role_from, Message};
use crate::decode::{
    bool_field, get_bool, get_opt_i64, get_opt_str, get_str, obj_lookup, opt_i64_field,
    opt_str_field, str_field,
};
use crate::json::{view_elems, Json, JsonValue};
use crate::num::spec_parse_i64;
use vstd::prelude::*;

verus! {

/// The integer contents of a JSON array of numbers; `None` when an element
/// is not an integral number fitting `i64`.
pub open spec fn i64s_of(es: Seq<Json>) -> Option<Seq<i64>>
    decreases es,
{
    if es.len() == 0 {
        Some(Seq::empty())
    } else {
        match es[0] {
            Json::Num(lit) => match spec_parse_i64(lit) {
                Some(v) => match i64s_of(es.drop_first()) {
                    Some(rest) => Some(seq![v] + rest),
                    None => None,
                },
                None => None,
            },
            _ => None,
        }
    }
}

/// An optional integer-array field: `Some(None)` when absent or null,
/// `Some(Some(xs))` on an array of integers, `None` on any other shape.
pub open spec fn opt_i64_arr_field(j: Json, key: Seq<char>) -> Option<Option<Seq<i64>>> {
    match obj_lookup(j, key) {
        Some(Json::Arr(es)) => match i64s_of(es) {
            Some(xs) => Some(Some(xs)),
            None => None,
        },
        Some(Json::Null) => Some(None),
        Some(_) => None,
        None => Some(None),
    }
}

/// Reads an optional integer-array field of `v`; the outer `None` means a
/// member of the wrong shape.
#[verifier::loop_isolation(false)]
pub fn get_opt_i64_arr(v: &JsonValue, key: &str) -> (r: Option<Option<Vec<i64>>>)
    ensures
        match r {
            Some(Some(xs)) => opt_i64_arr_field(v@, key@) == Some(Some(xs@)),
            Some(None) => opt_i64_arr_field(v@, key@) == Some(None::<Seq<i64>>),
            None => opt_i64_arr_field(v@, key@) is None,
        },
{
    match crate::decode::obj_get(v, key) {
        Some(JsonValue::Arr(es)) => {
            proof {
                crate::json::lemma_view_elems(es@);
            }
            let ghost ve = view_elems(es@);
            let mut out: Vec<i64> = Vec::new();
            let mut i: usize = 0;
            while i < es.len()
                invariant
                    i <= es@.len(),
                    i64s_of(ve) is Some ==> i64s_of(ve)->0.take(i as int) == out@,
                    forall|k: int|
                        0 <= k < i ==> #[trigger] ve[k] is Num && spec_parse_i64(ve[k]->Num_0)
                            is Some,
                    out@.len() == i,
                decreases es@.len() - i,
            {
                match &es[i] {
                    JsonValue::Num(lit) => {
                        let cs = crate::text::str_to_chars(lit.as_str());
                        match crate::num::parse_i64_chars(&cs) {
                            Some(x) => {
                                out.push(x);
                                proof {
                                    if i64s_of(ve) is Some {
                                        lemma_i64s_of_prefix(ve, i as int);
                                        assert(ve.skip(i as int)[0] == ve[i as int]);
                                        assert(i64s_of(ve)->0.skip(i as int)[0] == i64s_of(
                                            ve.skip(i as int),
                                        )->0[0]);
                                        assert(i64s_of(ve)->0[i as int] == x);
                                        assert(i64s_of(ve)->0.take(i + 1 as int) =~= i64s_of(
                                            ve,
                                        )->0.take(i as int).push(i64s_of(ve)->0[i as int]));
                                    }
                                }
                            },
                            None => {
                                proof {
                                    if i64s_of(ve) is Some {
                                        lemma_i64s_of_prefix(ve, i as int);
                                        assert(ve.skip(i as int)[0] == ve[i as int]);
                                        assert(false);
                                    }
                                }
                                return None;
                            },
                        }
                    },
                    other => {
                        proof {
                            if i64s_of(ve) is Some {
                                lemma_i64s_of_prefix(ve, i as int);
                                assert(ve.skip(i as int)[0] == ve[i as int]);
                                assert(ve[i as int] is Num);
                                match other {
                                    JsonValue::Null => {},
                                    JsonValue::Bool(_) => {},
                                    JsonValue::Num(_) => {},
                                    JsonValue::Str(_) => {},
                                    JsonValue::Arr(_) => {},
                                    JsonValue::Obj(_) => {},
                                }
                                assert(false);
                            }
                        }
                        return None;
                    },
                }
                i = i + 1;
            }
            proof {
                if i64s_of(ve) is Some {
                    lemma_i64s_of_len(ve);
                    assert(i64s_of(ve)->0.take(ve.len() as int) =~= i64s_of(ve)->0);
                } else {
                    lemma_i64s_of_all_num(ve);
                }
            }
            Some(Some(out))
        },
        Some(JsonValue::Null) => Some(None),
        Some(_) => None,
        None => Some(None),
    }
}

/// A successful integer-array read decomposes over any split point.
pub proof fn lemma_i64s_of_prefix(es: Seq<Json>, i: int)
    requires
        0 <= i <= es.len(),
        i64s_of(es) is Some,
    ensures
        i64s_of(es.skip(i)) is Some,
        i64s_of(es)->0.len() == es.len(),
        i64s_of(es)->0.skip(i) == i64s_of(es.skip(i))->0,
    decreases i,
{
    if i == 0 {
        assert(es.skip(0) =~= es);
        lemma_i64s_of_len(es);
        assert(i64s_of(es)->0.skip(0) =~= i64s_of(es)->0);
    } else {
        lemma_i64s_of_prefix(es, i - 1);
        let tail = es.skip(i - 1);
        assert(tail.drop_first() =~= es.skip(i));
        lemma_i64s_of_len(es);
        lemma_i64s_of_len(es.skip(i));
        assert(i64s_of(es)->0.skip(i) =~= i64s_of(es)->0.skip(i - 1).drop_first());
        assert(i64s_of(es)->0.skip(i - 1) == i64s_of(tail)->0);
        assert(i64s_of(tail)->0.drop_first() =~= i64s_of(tail.drop_first())->0);
    }
}

/// A successful integer-array read has one integer per element.
pub proof fn lemma_i64s_of_len(es: Seq<Json>)
    requires
        i64s_of(es) is Some,
    ensures
        i64s_of(es)->0.len() == es.len(),
    decreases es,
{
    if es.len() > 0 {
        lemma_i64s_of_len(es.drop_first());
    }
}

/// A sequence of integral number values always reads back as integers.
pub proof fn lemma_i64s_of_all_num(es: Seq<Json>)
    requires
        forall|k: int|
            0 <= k < es.len() ==> #[trigger] es[k] is Num && spec_parse_i64(es[k]->Num_0) is Some,
    ensures
        i64s_of(es) is Some,
    decreases es,
{
    if es.len() > 0 {
        assert(es[0] is Num);
        assert(forall|k: int|
            0 <= k < es.drop_first().len() ==> #[trigger] es.drop_first()[k] == es[k + 1]);
        lemma_i64s_of_all_num(es.drop_first());
    }
}

/// The text-completion response.
#[derive(Debug, Clone)]
pub struct GenerateResponse {
    pub model: String,
    pub created_at: String,
    pub response: String,
    pub done: bool,
    pub done_reason: Option<String>,
    pub total_duration: Option<i64>,
    pub load_duration: Option<i64>,
    pub prompt_eval_count: Option<i64>,
    pub prompt_eval_duration: Option<i64>,
    pub context: Option<Vec<i64>>,
    pub eval_count: Option<i64>,
    pub eval_duration: Option<i64>,
}

/// Can a generate response be decoded from `j`?
pub open spec fn generate_response_decodable(j: Json) -> bool {
    &&& str_field(j, "model"@) is Some
    &&& str_field(j, "created_at"@) is Some
    &&& str_field(j, "response"@) is Some
    &&& bool_field(j, "done"@) is Some
    &&& opt_str_field(j, "done_reason"@) is Some
    &&& opt_i64_field(j, "total_duration"@) is Some
    &&& opt_i64_field(j, "load_duration"@) is Some
    &&& opt_i64_field(j, "prompt_eval_count"@) is Some
    &&& opt_i64_field(j, "prompt_eval_duration"@) is Some
    &&& opt_i64_arr_field(j, "context"@) is Some
    &&& opt_i64_field(j, "eval_count"@) is Some
    &&& opt_i64_field(j, "eval_duration"@) is Some
}

/// Does `g` carry exactly the fields of `j`?
pub open spec fn generate_response_matches(j: Json, g: GenerateResponse) -> bool {
    &&& str_field(j, "model"@) == Some(g.model@)
    &&& str_field(j, "created_at"@) == Some(g.created_at@)
    &&& str_field(j, "response"@) == Some(g.response@)
    &&& bool_field(j, "done"@) == Some(g.done)
    &&& opt_str_field(j, "done_reason"@) == Some(match g.done_reason {
        Some(s) => Some(s@),
        None => None,
    })
    &&& opt_i64_field(j, "total_duration"@) == Some(g.total_duration)
    &&& opt_i64_field(j, "load_duration"@) == Some(g.load_duration)
    &&& opt_i64_field(j, "prompt_eval_count"@) == Some(g.prompt_eval_count)
    &&& opt_i64_field(j, "prompt_eval_duration"@) == Some(g.prompt_eval_duration)
    &&& opt_i64_arr_field(j, "context"@) == Some(match g.context {
        Some(xs) => Some(xs@),
        None => None,
    })
    &&& opt_i64_field(j, "eval_count"@) == Some(g.eval_count)
    &&& opt_i64_field(j, "eval_duration"@) == Some(g.eval_duration)
}

impl GenerateResponse {
    /// Decodes a generate response; succeeds exactly on decodable objects
    /// and then carries exactly the object's fields.
    pub fn from_json(v: &JsonValue) -> (r: Option<Self>)
        ensures
            r is Some <==> generate_response_decodable(v@),
            r matches Some(g) ==> generate_response_matches(v@, g),
    {
        let model = match get_str(v, "model") {
            Some(s) => s,
            None => {
                return None;
            },
        };
        let created_at = match get_str(v, "created_at") {
            Some(s) => s,
            None => {
                return None;
            },
        };
        let response = match get_str(v, "response") {
            Some(s) => s,
            None => {
                return None;
            },
        };
        let done = match get_bool(v, "done") {
            Some(b) => b,
            None => {
                return None;
            },
        };
        let done_reason = match get_opt_str(v, "done_reason") {
            Some(x) => x,
            None => {
                return None;
            },
        };
        let total_duration = match get_opt_i64(v, "total_duration") {
            Some(x) => x,
            None => {
                return None;
            },
        };
        let load_duration = match get_opt_i64(v, "load_duration") {
            Some(x) => x,
            None => {
                return None;
            },
        };
        let prompt_eval_count = match get_opt_i64(v, "prompt_eval_count") {
            Some(x) => x,
            None => {
                return None;
            },
        };
        let prompt_eval_duration = match get_opt_i64(v, "prompt_eval_duration") {
            Some(x) => x,
            None => {
                return None;
            },
        };
        let context = match get_opt_i64_arr(v, "context") {
            Some(x) => x,
            None => {
                return None;
            },
        };
        let eval_count = match get_opt_i64(v, "eval_count") {
            Some(x) => x,
            None => {
                return None;
            },
        };
        let eval_duration = match get_opt_i64(v, "eval_duration") {
            Some(x) => x,
            None => {
                return None;
            },
        };
        Some(
            GenerateResponse {
                model,
                created_at,
                response,
                done,
                done_reason,
                total_duration,
                load_duration,
                prompt_eval_count,
                prompt_eval_duration,
                context,
                eval_count,
                eval_duration,
            },
        )
    }
}

/// The chat-completion response.
#[derive(Debug, Clone)]
pub struct ChatCompletionResponse {
    pub model: String,
    pub created_at: String,
    pub message: Option<Message>,
    pub done_reason: Option<String>,
    pub done: bool,
    pub total_duration: Option<i64>,
    pub load_duration: Option<i64>,
    pub prompt_eval_count: Option<i64>,
    pub prompt_eval_duration: Option<i64>,
    pub eval_count: Option<i64>,
    pub eval_duration: Option<i64>,
}

/// Can a chat response be decoded from `j`?
pub open spec fn chat_response_decodable(j: Json) -> bool {
    &&& str_field(j, "model"@) is Some
    &&& str_field(j, "created_at"@) is Some
    &&& match obj_lookup(j, "message"@) {
        Some(Json::Null) => true,
        Some(m) => message_decodable(m),
        None => true,
    }
    &&& opt_str_field(j, "done_reason"@) is Some
    &&& bool_field(j, "done"@) is Some
    &&& opt_i64_field(j, "total_duration"@) is Some
    &&& opt_i64_field(j, "load_duration"@) is Some
    &&& opt_i64_field(j, "prompt_eval_count"@) is Some
    &&& opt_i64_field(j, "prompt_eval_duration"@) is Some
    &&& opt_i64_field(j, "eval_count"@) is Some
    &&& opt_i64_field(j, "eval_duration"@) is Some
}

/// Does `g` carry exactly the fields of `j`?
pub open spec fn chat_response_matches(j: Json, g: ChatCompletionResponse) -> bool {
    &&& str_field(j, "model"@) == Some(g.model@)
    &&& str_field(j, "created_at"@) == Some(g.created_at@)
    &&& (match obj_lookup(j, "message"@) {
        Some(Json::Null) => g.message is None,
        Some(_) => g.message is Some,
        None => g.message is None,
    })
    &&& g.message matches Some(m) ==> (obj_lookup(j, "message"@) matches Some(mj)
        && crate::abi::message_matches(mj, m))
    &&& opt_str_field(j, "done_reason"@) == Some(match g.done_reason {
        Some(s) => Some(s@),
        None => None,
    })
    &&& bool_field(j, "done"@) == Some(g.done)
    &&& opt_i64_field(j, "total_duration"@) == Some(g.total_duration)
    &&& opt_i64_field(j, "load_duration"@) == Some(g.load_duration)
    &&& opt_i64_field(j, "prompt_eval_count"@) == Some(g.prompt_eval_count)
    &&& opt_i64_field(j, "prompt_eval_duration"@) == Some(g.prompt_eval_duration)
    &&& opt_i64_field(j, "eval_count"@) == Some(g.eval_count)
    &&& opt_i64_field(j, "eval_duration"@) == Some(g.eval_duration)
}

impl ChatCompletionResponse {
    /// Decodes a chat response; succeeds exactly on decodable objects. The
    /// message member, when present and not null, decodes as a message.
    pub fn from_json(v: &JsonValue) -> (r: Option<Self>)
        ensures
            r is Some <==> chat_response_decodable(v@),
            r matches Some(g) ==> chat_response_matches(v@, g),
    {
        let model = match get_str(v, "model") {
            Some(s) => s,
            None => {
                return None;
            },
        };
        let created_at = match get_str(v, "created_at") {
            Some(s) => s,
            None => {
                return None;
            },
        };
        let message = match crate::decode::obj_get(v, "message") {
            Some(JsonValue::Null) => None,
            Some(mv) => match message_from_json(mv) {
                Some(m) => Some(m),
                None => {
                    return None;
                },
            },
            None => None,
        };
        let done_reason = match get_opt_str(v, "done_reason") {
            Some(x) => x,
            None => {
                return None;
            },
        };
        let done = match get_bool(v, "done") {
            Some(b) => b,
            None => {
                return None;
            },
        };
        let total_duration = match get_opt_i64(v, "total_duration") {
            Some(x) => x,
            None => {
                return None;
            },
        };
        let load_duration = match get_opt_i64(v, "load_duration") {
            Some(x) => x,
            None => {
                return None;
            },
        };
        let prompt_eval_count = match get_opt_i64(v, "prompt_eval_count") {
            Some(x) => x,
            None => {
                return None;
            },
        };
        let prompt_eval_duration = match get_opt_i64(v, "prompt_eval_duration") {
            Some(x) => x,
            None => {
                return None;
            },
        };
        let eval_count = match get_opt_i64(v, "eval_count") {
            Some(x) => x,
            None => {
                return None;
            },
        };
        let eval_duration = match get_opt_i64(v, "eval_duration") {
            Some(x) => x,
            None => {
                return None;
            },
        };
        Some(
            ChatCompletionResponse {
                model,
                created_at,
                message,
                done_reason,
                done,
                total_duration,
                load_duration,
                prompt_eval_count,
                prompt_eval_duration,
                eval_count,
                eval_duration,
            },
        )
    }
}

/// The reduced message inside a load- or unload-model response.
#[derive(Debug, Clone)]
pub struct ModelResponseMessage {
    pub role: crate::abi::Role,
    pub content: String,
}

/// Can a reduced message be decoded from `j`?
pub open spec fn model_message_decodable(j: Json) -> bool {
    &&& str_field(j, "role"@) matches Some(rs) && spec_role_from(rs) is Some
    &&& str_field(j, "content"@) is Some
}

impl ModelResponseMessage {
    /// Decodes a reduced message.
    pub fn from_json(v: &JsonValue) -> (r: Option<Self>)
        ensures
            r is Some <==> model_message_decodable(v@),
            r matches Some(m) ==> str_field(v@, "role"@) == Some(role_chars(m.role)) && str_field(
                v@,
                "content"@,
            ) == Some(m.content@),
    {
        let role_s = match get_str(v, "role") {
            Some(s) => s,
            None => {
                return None;
            },
        };
        proof {
            crate::abi::lemma_role_names();
        }
        let role = match crate::abi::role_from_str(role_s.as_str()) {
            Some(r) => r,
            None => {
                return None;
            },
        };
        let content = match get_str(v, "content") {
            Some(s) => s,
            None => {
                return None;
            },
        };
        Some(ModelResponseMessage { role, content })
    }
}

/// The load- or unload-model response of the chat endpoint.
#[derive(Debug, Clone)]
pub struct ChatCompletionModelResponse {
    pub model: String,
    pub created_at: String,
    pub message: ModelResponseMessage,
    pub done_reason: String,
    pub done: bool,
}

/// Can a load/unload response be decoded from `j`?
pub open spec fn chat_model_response_decodable(j: Json) -> bool {
    &&& str_field(j, "model"@) is Some
    &&& str_field(j, "created_at"@) is Some
    &&& obj_lookup(j, "message"@) matches Some(mj) && model_message_decodable(mj)
    &&& str_field(j, "done_reason"@) is Some
    &&& bool_field(j, "done"@) is Some
}

/// Does `g` carry exactly the fields of `j`?
pub open spec fn chat_model_response_matches(j: Json, g: ChatCompletionModelResponse) -> bool {
    &&& str_field(j, "model"@) == Some(g.model@)
    &&& str_field(j, "created_at"@) == Some(g.created_at@)
    &&& (obj_lookup(j, "message"@) matches Some(mj) && str_field(mj, "role"@) == Some(
        role_chars(g.message.role),
    ) && str_field(mj, "content"@) == Some(g.message.content@))
    &&& str_field(j, "done_reason"@) == Some(g.done_reason@)
    &&& bool_field(j, "done"@) == Some(g.done)
}

impl ChatCompletionModelResponse {
    /// Decodes a load/unload response; succeeds exactly on decodable
    /// objects.
    pub fn from_json(v: &JsonValue) -> (r: Option<Self>)
        ensures
            r is Some <==> chat_model_response_decodable(v@),
            r matches Some(g) ==> chat_model_response_matches(v@, g),
    {
        let model = match get_str(v, "model") {
            Some(s) => s,
            None => {
                return None;
            },
        };
        let created_at = match get_str(v, "created_at") {
            Some(s) => s,
            None => {
                return None;
            },
        };
        let message = match crate::decode::obj_get(v, "message") {
            Some(mv) => match ModelResponseMessage::from_json(mv) {
                Some(m) => m,
                None => {
                    return None;
                },
            },
            None => {
                return None;
            },
        };
        let done_reason = match get_str(v, "done_reason") {
            Some(s) => s,
            None => {
                return None;
            },
        };
        let done = match get_bool(v, "done") {
            Some(b) => b,
            None => {
                return None;
            },
        };
        Some(ChatCompletionModelResponse { model, created_at, message, done_reason, done })
    }
}

/// The load- or unload-model response of the generate endpoint.
#[derive(Debug, Clone)]
pub struct GenerateCompletionModelResponse {
    pub model: String,
    pub created_at: String,
    pub response: String,
    pub done_reason: String,
    pub done: bool,
}

/// Can a generate load/unload response be decoded from `j`?
pub open spec fn generate_model_response_decodable(j: Json) -> bool {
    &&& str_field(j, "model"@) is Some
    &&& str_field(j, "created_at"@) is Some
    &&& str_field(j, "response"@) is Some
    &&& str_field(j, "done_reason"@) is Some
    &&& bool_field(j, "done"@) is Some
}

/// Does `g` carry exactly the fields of `j`?
pub open spec fn generate_model_response_matches(j: Json, g: GenerateCompletionModelResponse) -> bool {
    &&& str_field(j, "model"@) == Some(g.model@)
    &&& str_field(j, "created_at"@) == Some(g.created_at@)
    &&& str_field(j, "response"@) == Some(g.response@)
    &&& str_field(j, "done_reason"@) == Some(g.done_reason@)
    &&& bool_field(j, "done"@) == Some(g.done)
}

impl GenerateCompletionModelResponse {
    /// Decodes a generate load/unload response; succeeds exactly on
    /// decodable objects.
    pub fn from_json(v: &JsonValue) -> (r: Option<Self>)
        ensures
            r is Some <==> generate_model_response_decodable(v@),
            r matches Some(g) ==> generate_model_response_matches(v@, g),
    {
        let model = match get_str(v, "model") {
            Some(s) => s,
            None => {
                return None;
            },
        };
        let created_at = match get_str(v, "created_at") {
            Some(s) => s,
            None => {
                return None;
            },
        };
        let response = match get_str(v, "response") {
            Some(s) => s,
            None => {
                return None;
            },
        };
        let done_reason = match get_str(v, "done_reason") {
            Some(s) => s,
            None => {
                return None;
            },
        };
        let done = match get_bool(v, "done") {
            Some(b) => b,
            None => {
                return None;
            },
        };
        Some(GenerateCompletionModelResponse { model, created_at, response, done_reason, done })
    }
}

/// The create-model response: a status line.
#[derive(Debug, Clone)]
pub struct CreateModelResponse {
    pub status: String,
}

impl CreateModelResponse {
    /// Decodes a create-model response: a required status string.
    pub fn from_json(v: &JsonValue) -> (r: Option<Self>)
        ensures
            r is Some <==> str_field(v@, "status"@) is Some,
            r matches Some(g) ==> str_field(v@, "status"@) == Some(g.status@),
    {
        match get_str(v, "status") {
            Some(status) => Some(CreateModelResponse { status }),
            None => None,
        }
    }
}

/// The pull-model response: a status line.
#[derive(Debug, Clone)]
pub struct PullModelResponse {
    pub status: String,
}

impl PullModelResponse {
    /// Decodes a pull-model response: a required status string.
    pub fn from_json(v: &JsonValue) -> (r: Option<Self>)
        ensures
            r is Some <==> str_field(v@, "status"@) is Some,
            r matches Some(g) ==> str_field(v@, "status"@) == Some(g.status@),
    {
        match get_str(v, "status") {
            Some(status) => Some(PullModelResponse { status }),
            None => None,
        }
    }
}

/// One update of a streamed pull: a status line, and download progress while
/// a layer is being fetched. The digest, total and completed fields are
/// absent on the manifest, verify and success lines.
#[derive(Debug, Clone)]
pub struct PullModelStreamingResponse {
    pub status: String,
    pub digest: Option<String>,
    pub total: Option<i64>,
    pub completed: Option<i64>,
}

/// Can a streamed pull update be decoded from `j`?
pub open spec fn pull_streaming_decodable(j: Json) -> bool {
    &&& str_field(j, "status"@) is Some
    &&& opt_str_field(j, "digest"@) is Some
    &&& opt_i64_field(j, "total"@) is Some
    &&& opt_i64_field(j, "completed"@) is Some
}

impl PullModelStreamingResponse {
    /// Decodes a streamed pull update; succeeds exactly on decodable
    /// objects, tolerating absent or null progress fields.
    pub fn from_json(v: &JsonValue) -> (r: Option<Self>)
        ensures
            r is Some <==> pull_streaming_decodable(v@),
            r matches Some(g) ==> {
                &&& str_field(v@, "status"@) == Some(g.status@)
                &&& opt_str_field(v@, "digest"@) == Some(match g.digest {
                    Some(s) => Some(s@),
                    None => None,
                })
                &&& opt_i64_field(v@, "total"@) == Some(g.total)
                &&& opt_i64_field(v@, "completed"@) == Some(g.completed)
            },
    {
        let status = match get_str(v, "status") {
            Some(s) => s,
            None => {
                return None;
            },
        };
        let digest = match get_opt_str(v, "digest") {
            Some(x) => x,
            None => {
                return None;
            },
        };
        let total = match get_opt_i64(v, "total") {
            Some(x) => x,
            None => {
                return None;
            },
        };
        let completed = match get_opt_i64(v, "completed") {
            Some(x) => x,
            None => {
                return None;
            },
        };
        Some(PullModelStreamingResponse { status, digest, total, completed })
    }
}

/// The push-model response: a status line.
#[derive(Debug, Clone)]
pub struct PushModelResponse {
    pub status: String,
}

impl PushModelResponse {
    /// Decodes a push-model response: a required status string.
    pub fn from_json(v: &JsonValue) -> (r: Option<Self>)
        ensures
            r is Some <==> str_field(v@, "status"@) is Some,
            r matches Some(g) ==> str_field(v@, "status"@) == Some(g.status@),
    {
        match get_str(v, "status") {
            Some(status) => Some(PushModelResponse { status }),
            None => None,
        }
    }
}

/// One update of a streamed push: a status line and upload progress.
#[derive(Debug, Clone)]
pub struct PushModelStreamingResponse {
    pub status: String,
    pub digest: Option<String>,
    pub total: Option<i64>,
}

/// Can a streamed push update be decoded from `j`?
pub open spec fn push_streaming_decodable(j: Json) -> bool {
    &&& str_field(j, "status"@) is Some
    &&& opt_str_field(j, "digest"@) is Some
    &&& opt_i64_field(j, "total"@) is Some
}

impl PushModelStreamingResponse {
    /// Decodes a streamed push update; succeeds exactly on decodable
    /// objects, tolerating absent or null progress fields.
    pub fn from_json(v: &JsonValue) -> (r: Option<Self>)
        ensures
            r is Some <==> push_streaming_decodable(v@),
            r matches Some(g) ==> {
                &&& str_field(v@, "status"@) == Some(g.status@)
                &&& opt_str_field(v@, "digest"@) == Some(match g.digest {
                    Some(s) => Some(s@),
                    None => None,
                })
                &&& opt_i64_field(v@, "total"@) == Some(g.total)
            },
    {
        let status = match get_str(v, "status") {
            Some(s) => s,
            None => {
                return None;
            },
        };
        let digest = match get_opt_str(v, "digest") {
            Some(x) => x,
            None => {
                return None;
            },
        };
        let total = match get_opt_i64(v, "total") {
            Some(x) => x,
            None => {
                return None;
            },
        };
        Some(PushModelStreamingResponse { status, digest, total })
    }
}

/// The version response.
#[derive(Debug, Clone)]
pub struct VersionResponse {
    pub version: String,
}

impl VersionResponse {
    /// Decodes a version response: a required version string.
    pub fn from_json(v: &JsonValue) -> (r: Option<Self>)
        ensures
            r is Some <==> str_field(v@, "version"@) is Some,
            r matches Some(g) ==> str_field(v@, "version"@) == Some(g.version@),
    {
        match get_str(v, "version") {
            Some(version) => Some(VersionResponse { version }),
            None => None,
        }
    }
}

/// The empty success of a model copy.
#[derive(Debug, Clone, PartialEq, Eq, Structural)]
pub struct CopyModelResponse {}

/// The empty success of a model deletion.
#[derive(Debug, Clone, PartialEq, Eq, Structural)]
pub struct DeleteModelResponse {}

/// The empty success of a blob-existence check.
#[derive(Debug, Clone, PartialEq, Eq, Structural)]
pub struct CheckBlobExistsResponse {}

/// The empty success of a blob upload.
#[derive(Debug, Clone, PartialEq, Eq, Structural)]
pub struct PushBlobResponse {}

/// Reads the server's error envelope: a required error string.
pub fn server_error_from_json(v: &JsonValue) -> (r: Option<crate::error::OllamaServerError>)
    ensures
        r is Some <==> str_field(v@, "error"@) is Some,
        r matches Some(g) ==> str_field(v@, "error"@) == Some(g.error@),
{
    match get_str(v, "error") {
        Some(error) => Some(crate::error::OllamaServerError { error }),
        None => None,
    }
}

} // verus!
