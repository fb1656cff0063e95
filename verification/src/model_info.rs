//! The model-listing, model-information and embeddings responses, with
//! their decoders.

use crate::abi::{opt_str_arr_field, strings_views};
use crate::decode::{get_str, i64_field, obj_lookup, str_field};
use crate::json::{view_elems, view_members, Json, JsonValue};
use vstd::prelude::*;

verus! {

/// The details block of a model entry.
#[derive(Debug, Clone)]
pub struct ModelInfoDetail {
    pub format: String,
    pub family: String,
    pub families: Option<Vec<String>>,
    pub parameter_size: String,
    pub quantization_level: String,
}

/// Can a details block be decoded from `j`?
pub open spec fn detail_decodable(j: Json) -> bool {
    &&& str_field(j, "format"@) is Some
    &&& str_field(j, "family"@) is Some
    &&& opt_str_arr_field(j, "families"@) is Some
    &&& str_field(j, "parameter_size"@) is Some
    &&& str_field(j, "quantization_level"@) is Some
}

/// Does `d` carry exactly the fields of `j`?
pub open spec fn detail_matches(j: Json, d: ModelInfoDetail) -> bool {
    &&& str_field(j, "format"@) == Some(d.format@)
    &&& str_field(j, "family"@) == Some(d.family@)
    &&& opt_str_arr_field(j, "families"@) == Some(match d.families {
        Some(xs) => Some(strings_views(xs@)),
        None => None,
    })
    &&& str_field(j, "parameter_size"@) == Some(d.parameter_size@)
    &&& str_field(j, "quantization_level"@) == Some(d.quantization_level@)
}

impl ModelInfoDetail {
    /// Decodes a details block; succeeds exactly on decodable objects.
    #[verifier::loop_isolation(false)]
    pub fn from_json(v: &JsonValue) -> (r: Option<Self>)
        ensures
            r is Some <==> detail_decodable(v@),
            r matches Some(d) ==> detail_matches(v@, d),
    {
        let format = match get_str(v, "format") {
            Some(s) => s,
            None => {
                return None;
            },
        };
        let family = match get_str(v, "family") {
            Some(s) => s,
            None => {
                return None;
            },
        };
        let families = match crate::abi::get_opt_strings(v, "families") {
            Some(x) => x,
            None => {
                return None;
            },
        };
        let parameter_size = match get_str(v, "parameter_size") {
            Some(s) => s,
            None => {
                return None;
            },
        };
        let quantization_level = match get_str(v, "quantization_level") {
            Some(s) => s,
            None => {
                return None;
            },
        };
        Some(ModelInfoDetail { format, family, families, parameter_size, quantization_level })
    }
}

/// One locally available model.
#[derive(Debug, Clone)]
pub struct ModelInfo {
    pub name: String,
    pub modified_at: String,
    pub size: i64,
    pub digest: String,
    pub details: ModelInfoDetail,
}

/// Can a local-model entry be decoded from `j`?
pub open spec fn model_info_decodable(j: Json) -> bool {
    &&& str_field(j, "name"@) is Some
    &&& str_field(j, "modified_at"@) is Some
    &&& i64_field(j, "size"@) is Some
    &&& str_field(j, "digest"@) is Some
    &&& obj_lookup(j, "details"@) matches Some(dj) && detail_decodable(dj)
}

/// Does `m` carry exactly the fields of `j`?
pub open spec fn model_info_matches(j: Json, m: ModelInfo) -> bool {
    &&& str_field(j, "name"@) == Some(m.name@)
    &&& str_field(j, "modified_at"@) == Some(m.modified_at@)
    &&& i64_field(j, "size"@) == Some(m.size)
    &&& str_field(j, "digest"@) == Some(m.digest@)
    &&& obj_lookup(j, "details"@) matches Some(dj) && detail_matches(dj, m.details)
}

impl ModelInfo {
    /// Decodes a local-model entry; succeeds exactly on decodable objects.
    pub fn from_json(v: &JsonValue) -> (r: Option<Self>)
        ensures
            r is Some <==> model_info_decodable(v@),
            r matches Some(m) ==> model_info_matches(v@, m),
    {
        let name = match get_str(v, "name") {
            Some(s) => s,
            None => {
                return None;
            },
        };
        let modified_at = match get_str(v, "modified_at") {
            Some(s) => s,
            None => {
                return None;
            },
        };
        let size = match crate::decode::get_i64(v, "size") {
            Some(x) => x,
            None => {
                return None;
            },
        };
        let digest = match get_str(v, "digest") {
            Some(s) => s,
            None => {
                return None;
            },
        };
        let details = match crate::decode::obj_get(v, "details") {
            Some(dv) => match ModelInfoDetail::from_json(dv) {
                Some(d) => d,
                None => {
                    return None;
                },
            },
            None => {
                return None;
            },
        };
        Some(ModelInfo { name, modified_at, size, digest, details })
    }
}

/// The list of locally available models.
#[derive(Debug, Clone)]
pub struct ListLocalModelsResponse {
    pub models: Vec<ModelInfo>,
}

/// Can the local-model list be decoded from `j`?
pub open spec fn list_local_decodable(j: Json) -> bool {
    obj_lookup(j, "models"@) matches Some(mj) && mj matches Json::Arr(es) && (forall|k: int|
        0 <= k < es.len() ==> #[trigger] model_info_decodable(es[k]))
}

/// Does `g` carry exactly the entries of `j`?
pub open spec fn list_local_matches(j: Json, g: ListLocalModelsResponse) -> bool {
    obj_lookup(j, "models"@) matches Some(Json::Arr(es)) && g.models@.len() == es.len() && (forall|
        k: int,
    |
        0 <= k < es.len() ==> model_info_matches(#[trigger] es[k], g.models@[k]))
}

impl ListLocalModelsResponse {
    /// Decodes the local-model list; succeeds exactly on decodable objects,
    /// with one entry per array element.
    #[verifier::loop_isolation(false)]
    pub fn from_json(v: &JsonValue) -> (r: Option<Self>)
        ensures
            r is Some <==> list_local_decodable(v@),
            r matches Some(g) ==> list_local_matches(v@, g),
    {
        match crate::decode::obj_get(v, "models") {
            Some(JsonValue::Arr(es)) => {
                proof {
                    crate::json::lemma_view_elems(es@);
                }
                let ghost ve = view_elems(es@);
                let mut models: Vec<ModelInfo> = Vec::new();
                let mut i: usize = 0;
                while i < es.len()
                    invariant
                        i <= es@.len(),
                        models@.len() == i,
                        forall|k: int| 0 <= k < i ==> model_info_decodable(#[trigger] ve[k]),
                        forall|k: int|
                            0 <= k < i ==> model_info_matches(#[trigger] ve[k], models@[k]),
                    decreases es@.len() - i,
                {
                    match ModelInfo::from_json(&es[i]) {
                        Some(m) => {
                            models.push(m);
                        },
                        None => {
                            proof {
                                assert(ve[i as int] == es@[i as int]@);
                                assert(!model_info_decodable(ve[i as int]));
                                assert(obj_lookup(v@, "models"@) == Some(Json::Arr(ve)));
                                assert(!list_local_decodable(v@)) by {
                                    if list_local_decodable(v@) {
                                        let mj = obj_lookup(v@, "models"@)->0;
                                        assert(mj->Arr_0 == ve);
                                        assert(model_info_decodable(mj->Arr_0[i as int]));
                                        assert(model_info_decodable(ve[i as int]));
                                    }
                                }
                            }
                            return None;
                        },
                    }
                    i = i + 1;
                }
                Some(ListLocalModelsResponse { models })
            },
            _ => None,
        }
    }
}

/// One model currently loaded in memory.
#[derive(Debug, Clone)]
pub struct ListRunningModelsInfo {
    pub name: String,
    pub model: String,
    pub size: i64,
    pub digest: String,
    pub details: ModelInfoDetail,
    pub expires_at: String,
    pub size_vram: i64,
}

/// Can a running-model entry be decoded from `j`?
pub open spec fn running_info_decodable(j: Json) -> bool {
    &&& str_field(j, "name"@) is Some
    &&& str_field(j, "model"@) is Some
    &&& i64_field(j, "size"@) is Some
    &&& str_field(j, "digest"@) is Some
    &&& obj_lookup(j, "details"@) matches Some(dj) && detail_decodable(dj)
    &&& str_field(j, "expires_at"@) is Some
    &&& i64_field(j, "size_vram"@) is Some
}

/// Does `m` carry exactly the fields of `j`?
pub open spec fn running_info_matches(j: Json, m: ListRunningModelsInfo) -> bool {
    &&& str_field(j, "name"@) == Some(m.name@)
    &&& str_field(j, "model"@) == Some(m.model@)
    &&& i64_field(j, "size"@) == Some(m.size)
    &&& str_field(j, "digest"@) == Some(m.digest@)
    &&& obj_lookup(j, "details"@) matches Some(dj) && detail_matches(dj, m.details)
    &&& str_field(j, "expires_at"@) == Some(m.expires_at@)
    &&& i64_field(j, "size_vram"@) == Some(m.size_vram)
}

impl ListRunningModelsInfo {
    /// Decodes a running-model entry; succeeds exactly on decodable objects.
    pub fn from_json(v: &JsonValue) -> (r: Option<Self>)
        ensures
            r is Some <==> running_info_decodable(v@),
            r matches Some(m) ==> running_info_matches(v@, m),
    {
        let name = match get_str(v, "name") {
            Some(s) => s,
            None => {
                return None;
            },
        };
        let model = match get_str(v, "model") {
            Some(s) => s,
            None => {
                return None;
            },
        };
        let size = match crate::decode::get_i64(v, "size") {
            Some(x) => x,
            None => {
                return None;
            },
        };
        let digest = match get_str(v, "digest") {
            Some(s) => s,
            None => {
                return None;
            },
        };
        let details = match crate::decode::obj_get(v, "details") {
            Some(dv) => match ModelInfoDetail::from_json(dv) {
                Some(d) => d,
                None => {
                    return None;
                },
            },
            None => {
                return None;
            },
        };
        let expires_at = match get_str(v, "expires_at") {
            Some(s) => s,
            None => {
                return None;
            },
        };
        let size_vram = match crate::decode::get_i64(v, "size_vram") {
            Some(x) => x,
            None => {
                return None;
            },
        };
        Some(ListRunningModelsInfo { name, model, size, digest, details, expires_at, size_vram })
    }
}

/// The list of models currently loaded in memory.
#[derive(Debug, Clone)]
pub struct ListRunningModelsResponse {
    pub models: Vec<ListRunningModelsInfo>,
}

/// Can the running-model list be decoded from `j`?
pub open spec fn list_running_decodable(j: Json) -> bool {
    obj_lookup(j, "models"@) matches Some(mj) && mj matches Json::Arr(es) && (forall|k: int|
        0 <= k < es.len() ==> #[trigger] running_info_decodable(es[k]))
}

/// Does `g` carry exactly the entries of `j`?
pub open spec fn list_running_matches(j: Json, g: ListRunningModelsResponse) -> bool {
    obj_lookup(j, "models"@) matches Some(Json::Arr(es)) && g.models@.len() == es.len() && (forall|
        k: int,
    |
        0 <= k < es.len() ==> running_info_matches(#[trigger] es[k], g.models@[k]))
}

impl ListRunningModelsResponse {
    /// Decodes the running-model list; succeeds exactly on decodable
    /// objects, with one entry per array element.
    #[verifier::loop_isolation(false)]
    pub fn from_json(v: &JsonValue) -> (r: Option<Self>)
        ensures
            r is Some <==> list_running_decodable(v@),
            r matches Some(g) ==> list_running_matches(v@, g),
    {
        match crate::decode::obj_get(v, "models") {
            Some(JsonValue::Arr(es)) => {
                proof {
                    crate::json::lemma_view_elems(es@);
                }
                let ghost ve = view_elems(es@);
                let mut models: Vec<ListRunningModelsInfo> = Vec::new();
                let mut i: usize = 0;
                while i < es.len()
                    invariant
                        i <= es@.len(),
                        models@.len() == i,
                        forall|k: int| 0 <= k < i ==> running_info_decodable(#[trigger] ve[k]),
                        forall|k: int|
                            0 <= k < i ==> running_info_matches(#[trigger] ve[k], models@[k]),
                    decreases es@.len() - i,
                {
                    match ListRunningModelsInfo::from_json(&es[i]) {
                        Some(m) => {
                            models.push(m);
                        },
                        None => {
                            proof {
                                assert(ve[i as int] == es@[i as int]@);
                                assert(!running_info_decodable(ve[i as int]));
                                assert(obj_lookup(v@, "models"@) == Some(Json::Arr(ve)));
                                assert(!list_running_decodable(v@)) by {
                                    if list_running_decodable(v@) {
                                        let mj = obj_lookup(v@, "models"@)->0;
                                        assert(mj->Arr_0 == ve);
                                        assert(running_info_decodable(mj->Arr_0[i as int]));
                                        assert(running_info_decodable(ve[i as int]));
                                    }
                                }
                            }
                            return None;
                        },
                    }
                    i = i + 1;
                }
                Some(ListRunningModelsResponse { models })
            },
            _ => None,
        }
    }
}

/// The model-information response. The open-ended `model_info` block keeps
/// its raw members.
#[derive(Debug, Clone)]
pub struct ShowModelInformationResponse {
    pub license: String,
    pub modelfile: String,
    pub parameters: String,
    pub template: String,
    pub details: ModelInfoDetail,
    pub model_info: Vec<(String, JsonValue)>,
}

/// Can a model-information response be decoded from `j`?
pub open spec fn show_info_decodable(j: Json) -> bool {
    &&& str_field(j, "license"@) is Some
    &&& str_field(j, "modelfile"@) is Some
    &&& str_field(j, "parameters"@) is Some
    &&& str_field(j, "template"@) is Some
    &&& obj_lookup(j, "details"@) matches Some(dj) && detail_decodable(dj)
    &&& obj_lookup(j, "model_info"@) matches Some(mj) && mj is Obj
}

/// Does `g` carry exactly the fields of `j`?
pub open spec fn show_info_matches(j: Json, g: ShowModelInformationResponse) -> bool {
    &&& str_field(j, "license"@) == Some(g.license@)
    &&& str_field(j, "modelfile"@) == Some(g.modelfile@)
    &&& str_field(j, "parameters"@) == Some(g.parameters@)
    &&& str_field(j, "template"@) == Some(g.template@)
    &&& obj_lookup(j, "details"@) matches Some(dj) && detail_matches(dj, g.details)
    &&& obj_lookup(j, "model_info"@) == Some(Json::Obj(view_members(g.model_info@)))
}

impl ShowModelInformationResponse {
    /// Decodes a model-information response; succeeds exactly on decodable
    /// objects, keeping the raw members of the open-ended block.
    pub fn from_json(v: &JsonValue) -> (r: Option<Self>)
        ensures
            r is Some <==> show_info_decodable(v@),
            r matches Some(g) ==> show_info_matches(v@, g),
    {
        let license = match get_str(v, "license") {
            Some(s) => s,
            None => {
                return None;
            },
        };
        let modelfile = match get_str(v, "modelfile") {
            Some(s) => s,
            None => {
                return None;
            },
        };
        let parameters = match get_str(v, "parameters") {
            Some(s) => s,
            None => {
                return None;
            },
        };
        let template = match get_str(v, "template") {
            Some(s) => s,
            None => {
                return None;
            },
        };
        let details = match crate::decode::obj_get(v, "details") {
            Some(dv) => match ModelInfoDetail::from_json(dv) {
                Some(d) => d,
                None => {
                    return None;
                },
            },
            None => {
                return None;
            },
        };
        let model_info = match crate::decode::obj_get(v, "model_info") {
            Some(mv) => match mv.deep_clone() {
                JsonValue::Obj(ms) => ms,
                other => {
                    proof {
                        match mv {
                            JsonValue::Null => {},
                            JsonValue::Bool(_) => {},
                            JsonValue::Num(_) => {},
                            JsonValue::Str(_) => {},
                            JsonValue::Arr(_) => {},
                            JsonValue::Obj(_) => {},
                        }
                    }
                    return None;
                },
            },
            None => {
                return None;
            },
        };
        Some(
            ShowModelInformationResponse {
                license,
                modelfile,
                parameters,
                template,
                details,
                model_info,
            },
        )
    }
}

/// The literal digits of a JSON array of numbers; `None` when an element is
/// not a number.
pub open spec fn num_lits_of(es: Seq<Json>) -> Option<Seq<Seq<char>>>
    decreases es,
{
    if es.len() == 0 {
        Some(Seq::empty())
    } else {
        match es[0] {
            Json::Num(lit) => match num_lits_of(es.drop_first()) {
                Some(rest) => Some(seq![lit] + rest),
                None => None,
            },
            _ => None,
        }
    }
}

/// Reads an array of numbers as their literal texts.
#[verifier::loop_isolation(false)]
pub fn num_lits_from(v: &JsonValue) -> (r: Option<Vec<String>>)
    ensures
        match r {
            Some(xs) => v@ matches Json::Arr(es) && num_lits_of(es) == Some(strings_views(xs@)),
            None => !(v@ matches Json::Arr(es) && num_lits_of(es) is Some),
        },
{
    match v {
        JsonValue::Arr(es) => {
            proof {
                crate::json::lemma_view_elems(es@);
            }
            let ghost ve = view_elems(es@);
            let mut out: Vec<String> = Vec::new();
            let mut i: usize = 0;
            while i < es.len()
                invariant
                    i <= es@.len(),
                    num_lits_of(ve) is Some ==> num_lits_of(ve)->0.take(i as int) == strings_views(
                        out@,
                    ),
                    forall|k: int| 0 <= k < i ==> #[trigger] ve[k] is Num,
                    strings_views(out@).len() == i,
                decreases es@.len() - i,
            {
                match &es[i] {
                    JsonValue::Num(lit) => {
                        let ghost before = out@;
                        out.push(lit.clone());
                        proof {
                            crate::abi::lemma_strings_views_push(before, out@[out@.len() - 1]);
                            if num_lits_of(ve) is Some {
                                lemma_num_lits_of_prefix(ve, i as int);
                                assert(ve.skip(i as int)[0] == ve[i as int]);
                                assert(num_lits_of(ve)->0.skip(i as int)[0] == num_lits_of(
                                    ve.skip(i as int),
                                )->0[0]);
                                assert(num_lits_of(ve)->0[i as int] == lit@);
                                assert(num_lits_of(ve)->0.take(i + 1 as int) =~= num_lits_of(
                                    ve,
                                )->0.take(i as int).push(num_lits_of(ve)->0[i as int]));
                            }
                        }
                    },
                    other => {
                        proof {
                            if num_lits_of(ve) is Some {
                                lemma_num_lits_of_prefix(ve, i as int);
                                assert(ve.skip(i as int)[0] == ve[i as int]);
                                assert(ve[i as int] is Num);
                                match other {
                                    JsonValue::Null => {},
                                    JsonValue::Bool(_) => {},
                                    JsonValue::Num(_) => {},
                                    JsonValue::Str(_) => {},
                                    JsonValue::Arr(_) => {},
                                    JsonValue::Obj(_) => {},
                                }
                                assert(false);
                            }
                        }
                        return None;
                    },
                }
                i = i + 1;
            }
            proof {
                if num_lits_of(ve) is Some {
                    lemma_num_lits_of_len(ve);
                    assert(num_lits_of(ve)->0.take(ve.len() as int) =~= num_lits_of(ve)->0);
                } else {
                    lemma_num_lits_of_all_num(ve);
                }
            }
            Some(out)
        },
        _ => None,
    }
}

/// A successful literal read decomposes over any split point.
pub proof fn lemma_num_lits_of_prefix(es: Seq<Json>, i: int)
    requires
        0 <= i <= es.len(),
        num_lits_of(es) is Some,
    ensures
        num_lits_of(es.skip(i)) is Some,
        num_lits_of(es)->0.len() == es.len(),
        num_lits_of(es)->0.skip(i) == num_lits_of(es.skip(i))->0,
    decreases i,
{
    if i == 0 {
        assert(es.skip(0) =~= es);
        lemma_num_lits_of_len(es);
        assert(num_lits_of(es)->0.skip(0) =~= num_lits_of(es)->0);
    } else {
        lemma_num_lits_of_prefix(es, i - 1);
        let tail = es.skip(i - 1);
        assert(tail.drop_first() =~= es.skip(i));
        lemma_num_lits_of_len(es);
        lemma_num_lits_of_len(es.skip(i));
        assert(num_lits_of(es)->0.skip(i) =~= num_lits_of(es)->0.skip(i - 1).drop_first());
        assert(num_lits_of(es)->0.skip(i - 1) == num_lits_of(tail)->0);
        assert(num_lits_of(tail)->0.drop_first() =~= num_lits_of(tail.drop_first())->0);
    }
}

/// A successful literal read has one text per element.
pub proof fn lemma_num_lits_of_len(es: Seq<Json>)
    requires
        num_lits_of(es) is Some,
    ensures
        num_lits_of(es)->0.len() == es.len(),
    decreases es,
{
    if es.len() > 0 {
        lemma_num_lits_of_len(es.drop_first());
    }
}

/// A sequence of number values always reads back as literals.
pub proof fn lemma_num_lits_of_all_num(es: Seq<Json>)
    requires
        forall|k: int| 0 <= k < es.len() ==> #[trigger] es[k] is Num,
    ensures
        num_lits_of(es) is Some,
    decreases es,
{
    if es.len() > 0 {
        assert(es[0] is Num);
        assert(forall|k: int|
            0 <= k < es.drop_first().len() ==> #[trigger] es.drop_first()[k] == es[k + 1]);
        lemma_num_lits_of_all_num(es.drop_first());
    }
}

/// The batch-embeddings response. Each embedding row keeps its numbers as
/// their exact decimal literals, passed through uninterpreted.
#[derive(Debug, Clone)]
pub struct GenerateEmbeddingsResponse {
    pub model: String,
    pub embeddings: Vec<Vec<String>>,
    pub total_duration: Option<i64>,
    pub load_duration: Option<i64>,
    pub prompt_eval_count: Option<i64>,
}

/// Can a batch-embeddings response be decoded from `j`?
pub open spec fn embeddings_response_decodable(j: Json) -> bool {
    &&& str_field(j, "model"@) is Some
    &&& obj_lookup(j, "embeddings"@) matches Some(ej) && ej matches Json::Arr(rows) && (forall|
        k: int,
    |
        0 <= k < rows.len() ==> (#[trigger] rows[k] matches Json::Arr(es) && num_lits_of(es)
            is Some))
    &&& crate::decode::opt_i64_field(j, "total_duration"@) is Some
    &&& crate::decode::opt_i64_field(j, "load_duration"@) is Some
    &&& crate::decode::opt_i64_field(j, "prompt_eval_count"@) is Some
}

/// Does `g` carry exactly the fields of `j`?
pub open spec fn embeddings_response_matches(j: Json, g: GenerateEmbeddingsResponse) -> bool {
    &&& str_field(j, "model"@) == Some(g.model@)
    &&& (obj_lookup(j, "embeddings"@) matches Some(Json::Arr(rows)) && g.embeddings@.len()
        == rows.len() && (forall|k: int|
        0 <= k < rows.len() ==> (#[trigger] rows[k] matches Json::Arr(es) && num_lits_of(es)
            == Some(strings_views(g.embeddings@[k]@)))))
    &&& crate::decode::opt_i64_field(j, "total_duration"@) == Some(g.total_duration)
    &&& crate::decode::opt_i64_field(j, "load_duration"@) == Some(g.load_duration)
    &&& crate::decode::opt_i64_field(j, "prompt_eval_count"@) == Some(g.prompt_eval_count)
}

impl GenerateEmbeddingsResponse {
    /// Decodes a batch-embeddings response; succeeds exactly on decodable
    /// objects, with one literal row per embedding.
    #[verifier::loop_isolation(false)]
    pub fn from_json(v: &JsonValue) -> (r: Option<Self>)
        ensures
            r is Some <==> embeddings_response_decodable(v@),
            r matches Some(g) ==> embeddings_response_matches(v@, g),
    {
        let model = match get_str(v, "model") {
            Some(s) => s,
            None => {
                return None;
            },
        };
        let embeddings = match crate::decode::obj_get(v, "embeddings") {
            Some(JsonValue::Arr(rows)) => {
                proof {
                    crate::json::lemma_view_elems(rows@);
                }
                let ghost vr = view_elems(rows@);
                let mut out: Vec<Vec<String>> = Vec::new();
                let mut i: usize = 0;
                while i < rows.len()
                    invariant
                        i <= rows@.len(),
                        out@.len() == i,
                        forall|k: int|
                            0 <= k < i ==> (#[trigger] vr[k] matches Json::Arr(es) && num_lits_of(
                                es,
                            ) == Some(strings_views(out@[k]@))),
                    decreases rows@.len() - i,
                {
                    match num_lits_from(&rows[i]) {
                        Some(row) => {
                            out.push(row);
                        },
                        None => {
                            proof {
                                assert(vr[i as int] == rows@[i as int]@);
                            }
                            return None;
                        },
                    }
                    i = i + 1;
                }
                out
            },
            _ => {
                return None;
            },
        };
        let total_duration = match crate::decode::get_opt_i64(v, "total_duration") {
            Some(x) => x,
            None => {
                return None;
            },
        };
        let load_duration = match crate::decode::get_opt_i64(v, "load_duration") {
            Some(x) => x,
            None => {
                return None;
            },
        };
        let prompt_eval_count = match crate::decode::get_opt_i64(v, "prompt_eval_count") {
            Some(x) => x,
            None => {
                return None;
            },
        };
        Some(
            GenerateEmbeddingsResponse {
                model,
                embeddings,
                total_duration,
                load_duration,
                prompt_eval_count,
            },
        )
    }
}

/// The single-prompt embedding response, on the older endpoint. The numbers
/// are kept as their exact decimal literals.
#[derive(Debug, Clone)]
pub struct GenerateEmbeddingResponse {
    pub embedding: Vec<String>,
}

/// Can a single-embedding response be decoded from `j`?
pub open spec fn embedding_response_decodable(j: Json) -> bool {
    obj_lookup(j, "embedding"@) matches Some(ej) && ej matches Json::Arr(es) && num_lits_of(es)
        is Some
}

/// Does `g` carry exactly the numbers of `j`?
pub open spec fn embedding_response_matches(j: Json, g: GenerateEmbeddingResponse) -> bool {
    obj_lookup(j, "embedding"@) matches Some(Json::Arr(es)) && num_lits_of(es) == Some(
        strings_views(g.embedding@),
    )
}

impl GenerateEmbeddingResponse {
    /// Decodes a single-embedding response: a required array of numbers.
    pub fn from_json(v: &JsonValue) -> (r: Option<Self>)
        ensures
            r is Some <==> embedding_response_decodable(v@),
            r matches Some(g) ==> embedding_response_matches(v@, g),
    {
        match crate::decode::obj_get(v, "embedding") {
            Some(av) => match num_lits_from(av) {
                Some(embedding) => Some(GenerateEmbeddingResponse { embedding }),
                None => None,
            },
            None => None,
        }
    }
}

} // verus!
