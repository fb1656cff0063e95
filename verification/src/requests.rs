//! The request type of each endpoint: its fields, its builder methods, its
//! path and HTTP method, and its exact wire object.

use crate::abi::{message_json, Message};
use crate::error::OllamaError;
use crate::format::Format;
use crate::json::{strings_json, view_elems, view_members, Json, JsonValue};
use crate::parameter::{
    parameter_members, parameter_to_json, push_num_i64_member, push_str_member, Parameter,
};
use crate::parse::parse_json;
use vstd::prelude::*;

verus! {

/// The HTTP method a request is sent with.
#[derive(Debug, Clone, Copy, PartialEq, Eq, Structural)]
pub enum RequestMethod {
    Get,
    Post,
    Delete,
    Head,
}

/// A request that knows its endpoint path and method.
pub trait OllamaRequest {
    /// The endpoint path, as a model.
    spec fn spec_path(&self) -> Seq<char>;

    /// The HTTP method.
    spec fn spec_method(&self) -> RequestMethod;

    /// The endpoint path below the base URL.
    fn path(&self) -> (p: String)
        ensures
            p@ == self.spec_path(),
    ;

    /// The HTTP method to use.
    fn method(&self) -> (m: RequestMethod)
        ensures
            m == self.spec_method(),
    ;
}

/// Appends one member holding a boolean.
pub fn push_bool_member(ms: &mut Vec<(String, JsonValue)>, key: &str, v: bool)
    ensures
        view_members(final(ms)@) == view_members(old(ms)@).push((key@, Json::Bool(v))),
{
    let ghost old_ms = ms@;
    ms.push((key.to_owned(), JsonValue::Bool(v)));
    proof {
        crate::json::lemma_view_members_push(old_ms, ms@[ms@.len() - 1].0, ms@[ms@.len() - 1].1);
    }
}

/// Appends one member holding an already-built value.
pub fn push_value_member(ms: &mut Vec<(String, JsonValue)>, key: &str, v: JsonValue)
    ensures
        view_members(final(ms)@) == view_members(old(ms)@).push((key@, v@)),
{
    let ghost old_ms = ms@;
    ms.push((key.to_owned(), v));
    proof {
        crate::json::lemma_view_members_push(old_ms, ms@[ms@.len() - 1].0, ms@[ms@.len() - 1].1);
    }
}

/// The wire values of a message list.
pub open spec fn messages_json(ms: Seq<Message>) -> Seq<Json>
    decreases ms,
{
    if ms.len() == 0 {
        Seq::empty()
    } else {
        seq![message_json(ms[0])] + messages_json(ms.drop_first())
    }
}

/// The message-list view has the same length and encodes each message in
/// place.
pub proof fn lemma_messages_json(ms: Seq<Message>)
    ensures
        messages_json(ms).len() == ms.len(),
        forall|i: int| 0 <= i < ms.len() ==> #[trigger] messages_json(ms)[i] == message_json(ms[i]),
    decreases ms,
{
    if ms.len() > 0 {
        lemma_messages_json(ms.drop_first());
        assert forall|i: int|
            0 <= i < ms.len() implies #[trigger] messages_json(ms)[i] == message_json(ms[i]) by {
            if i > 0 {
                assert(ms.drop_first()[i - 1] == ms[i]);
                assert(messages_json(ms)[i] == messages_json(ms.drop_first())[i - 1]);
            }
        }
    }
}

/// Builds the array value that encodes the given messages.
pub fn messages_to_json(ms: &Vec<Message>) -> (r: JsonValue)
    ensures
        r@ == Json::Arr(messages_json(ms@)),
{
    proof {
        lemma_messages_json(ms@);
    }
    let mut out: Vec<JsonValue> = Vec::new();
    let mut i: usize = 0;
    while i < ms.len()
        invariant
            i <= ms@.len(),
            view_elems(out@) == messages_json(ms@).take(i as int),
            messages_json(ms@).len() == ms@.len(),
            forall|k: int|
                0 <= k < ms@.len() ==> #[trigger] messages_json(ms@)[k] == message_json(ms@[k]),
        decreases ms@.len() - i,
    {
        let ghost before = out@;
        let v = crate::abi::message_to_json(&ms[i]);
        out.push(v);
        proof {
            crate::json::lemma_view_elems_push(before, v);
            assert(view_elems(out@) =~= messages_json(ms@).take(i + 1 as int));
        }
        i = i + 1;
    }
    proof {
        assert(view_elems(out@) =~= messages_json(ms@));
    }
    JsonValue::Arr(out)
}

/// The wire values of a tool list; `None` when some tool's text is not
/// valid JSON.
pub open spec fn tools_values(ts: Seq<crate::format::Tool>) -> Option<Seq<Json>>
    decreases ts,
{
    if ts.len() == 0 {
        Some(Seq::empty())
    } else {
        match parse_json(ts[0].text()) {
            Some(j) => match tools_values(ts.drop_first()) {
                Some(rest) => Some(seq![j] + rest),
                None => None,
            },
            None => None,
        }
    }
}

/// Builds the array value that encodes the given tools, or the
/// `InvalidFormat` error of the first tool whose text is not valid JSON.
pub fn tools_to_json(ts: &Vec<crate::format::Tool>) -> (r: Result<JsonValue, OllamaError>)
    ensures
        match r {
            Ok(v) => tools_values(ts@) matches Some(js) && v@ == Json::Arr(js),
            Err(e) => tools_values(ts@) is None && (e matches OllamaError::InvalidFormat(msg)
                && msg@ == "invalid tool format"@),
        },
{
    let mut out: Vec<JsonValue> = Vec::new();
    let mut i: usize = 0;
    proof {
        assert(view_elems(out@) =~= Seq::<Json>::empty());
        assert(ts@.skip(0) =~= ts@);
        assert(view_elems(out@) + tools_values(ts@)->0 =~= tools_values(ts@)->0);
    }
    while i < ts.len()
        invariant
            i <= ts@.len(),
            forall|js: Seq<Json>|
                tools_values(ts@.skip(i as int)) == Some(js) ==> tools_values(ts@) == Some(
                    view_elems(out@) + js,
                ),
            tools_values(ts@.skip(i as int)) is None ==> tools_values(ts@) is None,
        decreases ts@.len() - i,
    {
        proof {
            assert(ts@.skip(i as int)[0] == ts@[i as int]);
            assert(ts@.skip(i as int).drop_first() =~= ts@.skip(i + 1 as int));
        }
        match ts[i].to_value() {
            Ok(v) => {
                let ghost before = out@;
                out.push(v);
                proof {
                    crate::json::lemma_view_elems_push(before, v);
                    assert forall|js: Seq<Json>|
                        tools_values(ts@.skip(i + 1 as int)) == Some(js) implies tools_values(ts@)
                        == Some(view_elems(out@) + js) by {
                        assert(tools_values(ts@.skip(i as int)) == Some(seq![v@] + js));
                        assert(view_elems(before) + (seq![v@] + js) =~= view_elems(out@) + js);
                    }
                }
            },
            Err(e) => {
                return Err(e);
            },
        }
        i = i + 1;
    }
    proof {
        assert(ts@.skip(ts@.len() as int) =~= Seq::<crate::format::Tool>::empty());
        assert(view_elems(out@) + Seq::<Json>::empty() =~= view_elems(out@));
    }
    Ok(JsonValue::Arr(out))
}

/// The wire value of an optional format; `None` when a schema's text is not
/// valid JSON.
pub open spec fn format_value_spec(f: Format) -> Option<Json> {
    match f {
        Format::Json => Some(Json::Str("json"@)),
        Format::Schema(s) => parse_json(s@),
    }
}

/// The object members of a dictionary of file names to digests.
pub open spec fn pairs_members(ps: Seq<(String, String)>) -> Seq<(Seq<char>, Json)>
    decreases ps,
{
    if ps.len() == 0 {
        Seq::empty()
    } else {
        seq![(ps[0].0@, Json::Str(ps[0].1@))] + pairs_members(ps.drop_first())
    }
}

/// Builds the object value of a dictionary of file names to digests.
pub fn pairs_to_json(ps: &Vec<(String, String)>) -> (r: JsonValue)
    ensures
        r@ == Json::Obj(pairs_members(ps@)),
{
    let mut out: Vec<(String, JsonValue)> = Vec::new();
    let mut i: usize = 0;
    proof {
        lemma_pairs_members(ps@);
        assert(view_members(out@) =~= pairs_members(ps@).take(0));
    }
    while i < ps.len()
        invariant
            i <= ps@.len(),
            view_members(out@) == pairs_members(ps@).take(i as int),
            pairs_members(ps@).len() == ps@.len(),
            forall|k: int|
                0 <= k < ps@.len() ==> #[trigger] pairs_members(ps@)[k] == (ps@[k].0@, Json::Str(
                    ps@[k].1@,
                )),
        decreases ps@.len() - i,
    {
        let ghost before = out@;
        proof {
            lemma_pairs_members(ps@);
        }
        out.push((ps[i].0.clone(), JsonValue::Str(ps[i].1.clone())));
        proof {
            crate::json::lemma_view_members_push(before, out@[out@.len() - 1].0, out@[out@.len()
                - 1].1);
            assert(view_members(out@) =~= pairs_members(ps@).take(i + 1 as int));
        }
        i = i + 1;
    }
    proof {
        assert(pairs_members(ps@).take(ps@.len() as int) =~= pairs_members(ps@));
    }
    JsonValue::Obj(out)
}

/// The pair-member list has the same length and encodes each pair in place.
pub proof fn lemma_pairs_members(ps: Seq<(String, String)>)
    ensures
        pairs_members(ps).len() == ps.len(),
        forall|i: int|
            0 <= i < ps.len() ==> #[trigger] pairs_members(ps)[i] == (ps[i].0@, Json::Str(
                ps[i].1@,
            )),
    decreases ps,
{
    if ps.len() > 0 {
        lemma_pairs_members(ps.drop_first());
        assert forall|i: int|
            0 <= i < ps.len() implies #[trigger] pairs_members(ps)[i] == (ps[i].0@, Json::Str(
            ps[i].1@,
        )) by {
            if i > 0 {
                assert(ps.drop_first()[i - 1] == ps[i]);
                assert(pairs_members(ps)[i] == pairs_members(ps.drop_first())[i - 1]);
            }
        }
    }
}

/// The text-completion request.
#[derive(Debug, Clone)]
pub struct GenerateRequest {
    pub model: String,
    pub prompt: String,
    pub suffix: Option<String>,
    pub images: Vec<String>,
    pub format: Option<Format>,
    pub options: Parameter,
    pub system: Option<String>,
    pub template: Option<String>,
    pub stream: bool,
    pub raw: Option<bool>,
    pub keep_alive: Option<i64>,
}

/// The wire members of a generate request, given the resolved format value.
pub open spec fn generate_members(r: GenerateRequest) -> Seq<(Seq<char>, Json)> {
    let m0 = seq![("model"@, Json::Str(r.model@)), ("prompt"@, Json::Str(r.prompt@))];
    let m1 = match r.suffix {
        Some(s) => m0.push(("suffix"@, Json::Str(s@))),
        None => m0,
    };
    let m2 = if r.images@.len() > 0 {
        m1.push(("images"@, Json::Arr(strings_json(r.images@))))
    } else {
        m1
    };
    let m3 = match r.format {
        Some(f) => m2.push(("format"@, format_value_spec(f)->0)),
        None => m2,
    };
    let m4 = if !r.options.spec_is_default() {
        m3.push(("options"@, Json::Obj(parameter_members(r.options))))
    } else {
        m3
    };
    let m5 = match r.system {
        Some(s) => m4.push(("system"@, Json::Str(s@))),
        None => m4,
    };
    let m6 = match r.template {
        Some(s) => m5.push(("template"@, Json::Str(s@))),
        None => m5,
    };
    let m7 = m6.push(("stream"@, Json::Bool(r.stream)));
    let m8 = match r.raw {
        Some(b) => m7.push(("raw"@, Json::Bool(b))),
        None => m7,
    };
    match r.keep_alive {
        Some(k) => m8.push(("keep_alive"@, Json::Num(crate::num::int_rep(k as int)))),
        None => m8,
    }
}

impl GenerateRequest {
    /// A fresh request with the mandatory fields and every option unset.
    pub fn new(model: &str, prompt: &str) -> (r: Self)
        ensures
            r.model@ == model@,
            r.prompt@ == prompt@,
            r.suffix is None,
            r.images@.len() == 0,
            r.format is None,
            r.options.spec_is_default(),
            r.system is None,
            r.template is None,
            r.stream == false,
            r.raw is None,
            r.keep_alive is None,
    {
        GenerateRequest {
            model: model.to_owned(),
            prompt: prompt.to_owned(),
            suffix: None,
            images: Vec::new(),
            format: None,
            options: Parameter::default(),
            system: None,
            template: None,
            stream: false,
            raw: None,
            keep_alive: None,
        }
    }

    /// The wire object: every set option under its own name, unset options
    /// left off entirely; fails with `InvalidFormat` exactly when the format
    /// is a schema whose text is not valid JSON.
    pub fn to_json(&self) -> (r: Result<JsonValue, OllamaError>)
        ensures
            match r {
                Ok(v) => (match self.format {
                    Some(f) => format_value_spec(f) is Some,
                    None => true,
                }) && v@ == Json::Obj(generate_members(*self)),
                Err(e) => (self.format matches Some(f) && format_value_spec(f) is None) && (e
                    matches OllamaError::InvalidFormat(msg) && msg@ == "invalid JSON schema"@),
            },
    {
        let ghost g0 = seq![("model"@, Json::Str(self.model@)), ("prompt"@, Json::Str(self.prompt@))];
        let ghost g1 = match &self.suffix {
            Some(s) => g0.push(("suffix"@, Json::Str(s@))),
            None => g0,
        };
        let ghost g2 = if self.images@.len() > 0 {
            g1.push(("images"@, Json::Arr(strings_json(self.images@))))
        } else {
            g1
        };
        let ghost g3 = match &self.format {
            Some(f) => g2.push(("format"@, format_value_spec(*f)->0)),
            None => g2,
        };
        let ghost g4 = if !self.options.spec_is_default() {
            g3.push(("options"@, Json::Obj(parameter_members(self.options))))
        } else {
            g3
        };
        let ghost g5 = match &self.system {
            Some(s) => g4.push(("system"@, Json::Str(s@))),
            None => g4,
        };
        let ghost g6 = match &self.template {
            Some(s) => g5.push(("template"@, Json::Str(s@))),
            None => g5,
        };
        let ghost g7 = g6.push(("stream"@, Json::Bool(self.stream)));
        let ghost g8 = match &self.raw {
            Some(b) => g7.push(("raw"@, Json::Bool(*b))),
            None => g7,
        };
        let mut ms: Vec<(String, JsonValue)> = Vec::new();
        proof {
            assert(view_members(ms@) =~= Seq::<(Seq<char>, Json)>::empty());
        }
        push_str_member(&mut ms, "model", self.model.as_str());
        push_str_member(&mut ms, "prompt", self.prompt.as_str());
        proof {
            assert(view_members(ms@) =~= g0);
        }
        if let Some(s) = &self.suffix {
            push_str_member(&mut ms, "suffix", s.as_str());
        }
        assert(view_members(ms@) == g1);
        if self.images.len() > 0 {
            let arr = crate::json::strings_to_json(&self.images);
            push_value_member(&mut ms, "images", arr);
        }
        assert(view_members(ms@) == g2);
        if let Some(f) = &self.format {
            match f.to_value() {
                Ok(v) => push_value_member(&mut ms, "format", v),
                Err(e) => {
                    return Err(e);
                },
            }
        }
        assert(view_members(ms@) == g3);
        if !self.options.is_default() {
            let opts = parameter_to_json(&self.options);
            push_value_member(&mut ms, "options", opts);
        }
        assert(view_members(ms@) == g4);
        if let Some(s) = &self.system {
            push_str_member(&mut ms, "system", s.as_str());
        }
        assert(view_members(ms@) == g5);
        if let Some(s) = &self.template {
            push_str_member(&mut ms, "template", s.as_str());
        }
        assert(view_members(ms@) == g6);
        push_bool_member(&mut ms, "stream", self.stream);
        if let Some(b) = &self.raw {
            push_bool_member(&mut ms, "raw", *b);
        }
        assert(view_members(ms@) == g8);
        if let Some(k) = &self.keep_alive {
            push_num_i64_member(&mut ms, "keep_alive", *k);
        }
        proof {
            assert(view_members(ms@) == generate_members(*self));
        }
        Ok(JsonValue::Obj(ms))
    }
}

impl GenerateRequest {
    /// Empties everything but the model: the load-model request of the
    /// generate endpoint.
    pub fn to_load_model(self) -> (r: Self)
        ensures
            r.model == self.model,
            r.prompt@.len() == 0,
            r.suffix is None,
            r.images@.len() == 0,
            r.format is None,
            r.options.spec_is_default(),
            r.system is None,
            r.template is None,
            r.stream == false,
            r.raw is None,
            r.keep_alive is None,
    {
        GenerateRequest {
            model: self.model,
            prompt: String::new(),
            suffix: None,
            images: Vec::new(),
            format: None,
            options: Parameter::default(),
            system: None,
            template: None,
            stream: false,
            raw: None,
            keep_alive: None,
        }
    }

    /// Empties everything but the model and zeroes the keep-alive: the
    /// unload-model request of the generate endpoint.
    pub fn to_unload_model(self) -> (r: Self)
        ensures
            r.model == self.model,
            r.prompt@.len() == 0,
            r.suffix is None,
            r.images@.len() == 0,
            r.format is None,
            r.options.spec_is_default(),
            r.system is None,
            r.template is None,
            r.stream == false,
            r.raw is None,
            r.keep_alive == Some(0i64),
    {
        GenerateRequest { keep_alive: Some(0), ..self.to_load_model() }
    }
}

impl OllamaRequest for GenerateRequest {
    open spec fn spec_path(&self) -> Seq<char> {
        "/api/generate"@
    }

    open spec fn spec_method(&self) -> RequestMethod {
        RequestMethod::Post
    }

    fn path(&self) -> (p: String) {
        String::from_str("/api/generate")
    }

    fn method(&self) -> (m: RequestMethod) {
        RequestMethod::Post
    }
}

/// The chat-completion request.
#[derive(Debug, Clone)]
pub struct ChatCompletionRequest {
    pub model: String,
    pub messages: Vec<Message>,
    pub tools: Vec<crate::format::Tool>,
    pub format: Option<Format>,
    pub options: Parameter,
    pub stream: bool,
    pub keep_alive: Option<i64>,
}

/// The wire members of a chat request.
pub open spec fn chat_members(r: ChatCompletionRequest) -> Seq<(Seq<char>, Json)> {
    let m0 = seq![
        ("model"@, Json::Str(r.model@)),
        ("messages"@, Json::Arr(messages_json(r.messages@))),
    ];
    let m1 = if r.tools@.len() > 0 {
        m0.push(("tools"@, Json::Arr(tools_values(r.tools@)->0)))
    } else {
        m0
    };
    let m2 = match r.format {
        Some(f) => m1.push(("format"@, format_value_spec(f)->0)),
        None => m1,
    };
    let m3 = if !r.options.spec_is_default() {
        m2.push(("options"@, Json::Obj(parameter_members(r.options))))
    } else {
        m2
    };
    let m4 = m3.push(("stream"@, Json::Bool(r.stream)));
    match r.keep_alive {
        Some(k) => m4.push(("keep_alive"@, Json::Num(crate::num::int_rep(k as int)))),
        None => m4,
    }
}

impl ChatCompletionRequest {
    /// A fresh request with the mandatory model and no messages yet.
    pub fn new(model: &str) -> (r: Self)
        ensures
            r.model@ == model@,
            r.messages@.len() == 0,
            r.tools@.len() == 0,
            r.format is None,
            r.options.spec_is_default(),
            r.stream == false,
            r.keep_alive is None,
    {
        ChatCompletionRequest {
            model: model.to_owned(),
            messages: Vec::new(),
            tools: Vec::new(),
            format: None,
            options: Parameter::default(),
            stream: false,
            keep_alive: None,
        }
    }

    /// The wire object; fails with `InvalidFormat` exactly when the format
    /// schema or some tool text is not valid JSON (format first).
    #[verifier::rlimit(60)]
    pub fn to_json(&self) -> (r: Result<JsonValue, OllamaError>)
        ensures
            match r {
                Ok(v) => (match self.format {
                    Some(f) => format_value_spec(f) is Some,
                    None => true,
                }) && (self.tools@.len() > 0 ==> tools_values(self.tools@) is Some) && v@
                    == Json::Obj(chat_members(*self)),
                Err(e) => (e matches OllamaError::InvalidFormat(_)) && ((self.format matches Some(
                    f,
                ) && format_value_spec(f) is None) || tools_values(self.tools@) is None),
            },
    {
        let mut ms: Vec<(String, JsonValue)> = Vec::new();
        proof {
            assert(view_members(ms@) =~= Seq::<(Seq<char>, Json)>::empty());
        }
        push_str_member(&mut ms, "model", self.model.as_str());
        let msgs = messages_to_json(&self.messages);
        push_value_member(&mut ms, "messages", msgs);
        if self.tools.len() > 0 {
            match tools_to_json(&self.tools) {
                Ok(v) => push_value_member(&mut ms, "tools", v),
                Err(e) => {
                    return Err(e);
                },
            }
        }
        if let Some(f) = &self.format {
            match f.to_value() {
                Ok(v) => push_value_member(&mut ms, "format", v),
                Err(e) => {
                    return Err(e);
                },
            }
        }
        if !self.options.is_default() {
            let opts = parameter_to_json(&self.options);
            push_value_member(&mut ms, "options", opts);
        }
        push_bool_member(&mut ms, "stream", self.stream);
        if let Some(k) = &self.keep_alive {
            push_num_i64_member(&mut ms, "keep_alive", *k);
        }
        proof {
            if self.tools@.len() == 0 {
                assert(tools_values(self.tools@) == Some(Seq::<Json>::empty()));
            }
            assert(view_members(ms@) =~= chat_members(*self));
        }
        Ok(JsonValue::Obj(ms))
    }

    /// Empties the message list, keeping the model: the load-model request.
    pub fn to_load_model(self) -> (r: Self)
        ensures
            r.model == self.model,
            r.messages@.len() == 0,
            r.tools@.len() == 0,
            r.format is None,
            r.options.spec_is_default(),
            r.stream == false,
            r.keep_alive is None,
    {
        ChatCompletionRequest {
            model: self.model,
            messages: Vec::new(),
            tools: Vec::new(),
            format: None,
            options: Parameter::default(),
            stream: false,
            keep_alive: None,
        }
    }

    /// Empties the message list and zeroes the keep-alive: the unload-model
    /// request.
    pub fn to_unload_model(self) -> (r: Self)
        ensures
            r.model == self.model,
            r.messages@.len() == 0,
            r.tools@.len() == 0,
            r.format is None,
            r.options.spec_is_default(),
            r.stream == false,
            r.keep_alive == Some(0i64),
    {
        ChatCompletionRequest {
            model: self.model,
            messages: Vec::new(),
            tools: Vec::new(),
            format: None,
            options: Parameter::default(),
            stream: false,
            keep_alive: Some(0),
        }
    }
}

impl OllamaRequest for ChatCompletionRequest {
    open spec fn spec_path(&self) -> Seq<char> {
        "/api/chat"@
    }

    open spec fn spec_method(&self) -> RequestMethod {
        RequestMethod::Post
    }

    fn path(&self) -> (p: String) {
        String::from_str("/api/chat")
    }

    fn method(&self) -> (m: RequestMethod) {
        RequestMethod::Post
    }
}

/// The create-model request.
#[derive(Debug, Clone)]
pub struct CreateModelRequest {
    pub model: String,
    pub from: Option<String>,
    pub files: Option<Vec<(String, String)>>,
    pub adapters: Option<Vec<(String, String)>>,
    pub template: Option<String>,
    pub license: Vec<String>,
    pub system: Option<String>,
    pub parameters: Parameter,
    pub messages: Vec<Message>,
    pub stream: bool,
    pub quantize: Option<String>,
}

/// The wire members of a create-model request.
pub open spec fn create_members(r: CreateModelRequest) -> Seq<(Seq<char>, Json)> {
    let m0 = seq![("model"@, Json::Str(r.model@))];
    let m1 = match r.from {
        Some(s) => m0.push(("from"@, Json::Str(s@))),
        None => m0,
    };
    let m2 = match r.files {
        Some(ps) => m1.push(("files"@, Json::Obj(pairs_members(ps@)))),
        None => m1,
    };
    let m3 = match r.adapters {
        Some(ps) => m2.push(("adapters"@, Json::Obj(pairs_members(ps@)))),
        None => m2,
    };
    let m4 = match r.template {
        Some(s) => m3.push(("template"@, Json::Str(s@))),
        None => m3,
    };
    let m5 = if r.license@.len() > 0 {
        m4.push(("license"@, Json::Arr(strings_json(r.license@))))
    } else {
        m4
    };
    let m6 = match r.system {
        Some(s) => m5.push(("system"@, Json::Str(s@))),
        None => m5,
    };
    let m7 = if !r.parameters.spec_is_default() {
        m6.push(("parameters"@, Json::Obj(parameter_members(r.parameters))))
    } else {
        m6
    };
    let m8 = if r.messages@.len() > 0 {
        m7.push(("messages"@, Json::Arr(messages_json(r.messages@))))
    } else {
        m7
    };
    let m9 = m8.push(("stream"@, Json::Bool(r.stream)));
    match r.quantize {
        Some(s) => m9.push(("quantize"@, Json::Str(s@))),
        None => m9,
    }
}

impl CreateModelRequest {
    /// A fresh request naming only the model to create.
    pub fn new(model: &str) -> (r: Self)
        ensures
            r.model@ == model@,
            r.from is None,
            r.files is None,
            r.adapters is None,
            r.template is None,
            r.license@.len() == 0,
            r.system is None,
            r.parameters.spec_is_default(),
            r.messages@.len() == 0,
            r.stream == false,
            r.quantize is None,
    {
        CreateModelRequest {
            model: model.to_owned(),
            from: None,
            files: None,
            adapters: None,
            template: None,
            license: Vec::new(),
            system: None,
            parameters: Parameter::default(),
            messages: Vec::new(),
            stream: false,
            quantize: None,
        }
    }

    /// The wire object: every set field under its own name.
    pub fn to_json(&self) -> (r: JsonValue)
        ensures
            r@ == Json::Obj(create_members(*self)),
    {
        let ghost g0 = seq![("model"@, Json::Str(self.model@))];
        let ghost g1 = match &self.from {
            Some(s) => g0.push(("from"@, Json::Str(s@))),
            None => g0,
        };
        let ghost g2 = match &self.files {
            Some(ps) => g1.push(("files"@, Json::Obj(pairs_members(ps@)))),
            None => g1,
        };
        let ghost g3 = match &self.adapters {
            Some(ps) => g2.push(("adapters"@, Json::Obj(pairs_members(ps@)))),
            None => g2,
        };
        let ghost g4 = match &self.template {
            Some(s) => g3.push(("template"@, Json::Str(s@))),
            None => g3,
        };
        let ghost g5 = if self.license@.len() > 0 {
            g4.push(("license"@, Json::Arr(strings_json(self.license@))))
        } else {
            g4
        };
        let ghost g6 = match &self.system {
            Some(s) => g5.push(("system"@, Json::Str(s@))),
            None => g5,
        };
        let ghost g7 = if !self.parameters.spec_is_default() {
            g6.push(("parameters"@, Json::Obj(parameter_members(self.parameters))))
        } else {
            g6
        };
        let ghost g8 = if self.messages@.len() > 0 {
            g7.push(("messages"@, Json::Arr(messages_json(self.messages@))))
        } else {
            g7
        };
        let ghost g9 = g8.push(("stream"@, Json::Bool(self.stream)));
        let mut ms: Vec<(String, JsonValue)> = Vec::new();
        proof {
            assert(view_members(ms@) =~= Seq::<(Seq<char>, Json)>::empty());
        }
        push_str_member(&mut ms, "model", self.model.as_str());
        assert(view_members(ms@) == g0);
        if let Some(s) = &self.from {
            push_str_member(&mut ms, "from", s.as_str());
        }
        assert(view_members(ms@) == g1);
        if let Some(ps) = &self.files {
            let obj = pairs_to_json(ps);
            push_value_member(&mut ms, "files", obj);
        }
        assert(view_members(ms@) == g2);
        if let Some(ps) = &self.adapters {
            let obj = pairs_to_json(ps);
            push_value_member(&mut ms, "adapters", obj);
        }
        assert(view_members(ms@) == g3);
        if let Some(s) = &self.template {
            push_str_member(&mut ms, "template", s.as_str());
        }
        assert(view_members(ms@) == g4);
        if self.license.len() > 0 {
            let arr = crate::json::strings_to_json(&self.license);
            push_value_member(&mut ms, "license", arr);
        }
        assert(view_members(ms@) == g5);
        if let Some(s) = &self.system {
            push_str_member(&mut ms, "system", s.as_str());
        }
        assert(view_members(ms@) == g6);
        if !self.parameters.is_default() {
            let opts = parameter_to_json(&self.parameters);
            push_value_member(&mut ms, "parameters", opts);
        }
        assert(view_members(ms@) == g7);
        if self.messages.len() > 0 {
            let arr = messages_to_json(&self.messages);
            push_value_member(&mut ms, "messages", arr);
        }
        assert(view_members(ms@) == g8);
        push_bool_member(&mut ms, "stream", self.stream);
        assert(view_members(ms@) == g9);
        if let Some(s) = &self.quantize {
            push_str_member(&mut ms, "quantize", s.as_str());
        }
        proof {
            assert(view_members(ms@) == create_members(*self));
        }
        JsonValue::Obj(ms)
    }
}

impl OllamaRequest for CreateModelRequest {
    open spec fn spec_path(&self) -> Seq<char> {
        "/api/create"@
    }

    open spec fn spec_method(&self) -> RequestMethod {
        RequestMethod::Post
    }

    fn path(&self) -> (p: String) {
        String::from_str("/api/create")
    }

    fn method(&self) -> (m: RequestMethod) {
        RequestMethod::Post
    }
}

/// The copy-model request: a source model and a destination name.
#[derive(Debug, Clone)]
pub struct CopyModelRequest {
    pub source: String,
    pub destination: String,
}

impl CopyModelRequest {
    /// A request to copy `source` to `destination`.
    pub fn new(source: &str, destination: &str) -> (r: Self)
        ensures
            r.source@ == source@,
            r.destination@ == destination@,
    {
        CopyModelRequest { source: source.to_owned(), destination: destination.to_owned() }
    }

    /// The wire object: both names.
    pub fn to_json(&self) -> (r: JsonValue)
        ensures
            r@ == Json::Obj(
                seq![
                    ("source"@, Json::Str(self.source@)),
                    ("destination"@, Json::Str(self.destination@)),
                ],
            ),
    {
        let mut ms: Vec<(String, JsonValue)> = Vec::new();
        proof {
            assert(view_members(ms@) =~= Seq::<(Seq<char>, Json)>::empty());
        }
        push_str_member(&mut ms, "source", self.source.as_str());
        push_str_member(&mut ms, "destination", self.destination.as_str());
        proof {
            assert(view_members(ms@) =~= seq![
                ("source"@, Json::Str(self.source@)),
                ("destination"@, Json::Str(self.destination@)),
            ]);
        }
        JsonValue::Obj(ms)
    }
}

impl OllamaRequest for CopyModelRequest {
    open spec fn spec_path(&self) -> Seq<char> {
        "/api/copy"@
    }

    open spec fn spec_method(&self) -> RequestMethod {
        RequestMethod::Post
    }

    fn path(&self) -> (p: String) {
        String::from_str("/api/copy")
    }

    fn method(&self) -> (m: RequestMethod) {
        RequestMethod::Post
    }
}

/// The delete-model request.
#[derive(Debug, Clone)]
pub struct DeleteModelRequest {
    pub model: String,
}

impl DeleteModelRequest {
    /// A request to delete the named model.
    pub fn new(model: &str) -> (r: Self)
        ensures
            r.model@ == model@,
    {
        DeleteModelRequest { model: model.to_owned() }
    }

    /// The wire object: the model name.
    pub fn to_json(&self) -> (r: JsonValue)
        ensures
            r@ == Json::Obj(seq![("model"@, Json::Str(self.model@))]),
    {
        let mut ms: Vec<(String, JsonValue)> = Vec::new();
        proof {
            assert(view_members(ms@) =~= Seq::<(Seq<char>, Json)>::empty());
        }
        push_str_member(&mut ms, "model", self.model.as_str());
        proof {
            assert(view_members(ms@) =~= seq![("model"@, Json::Str(self.model@))]);
        }
        JsonValue::Obj(ms)
    }
}

impl OllamaRequest for DeleteModelRequest {
    open spec fn spec_path(&self) -> Seq<char> {
        "/api/delete"@
    }

    open spec fn spec_method(&self) -> RequestMethod {
        RequestMethod::Delete
    }

    fn path(&self) -> (p: String) {
        String::from_str("/api/delete")
    }

    fn method(&self) -> (m: RequestMethod) {
        RequestMethod::Delete
    }
}

/// The pull-model request.
#[derive(Debug, Clone)]
pub struct PullModelRequest {
    pub model: String,
    pub insecure: Option<bool>,
    pub stream: bool,
}

/// The wire members of a pull request; an unset `insecure` is left off
/// entirely.
pub open spec fn pull_members(r: PullModelRequest) -> Seq<(Seq<char>, Json)> {
    let m0 = seq![("model"@, Json::Str(r.model@))];
    let m1 = match r.insecure {
        Some(b) => m0.push(("insecure"@, Json::Bool(b))),
        None => m0,
    };
    m1.push(("stream"@, Json::Bool(r.stream)))
}

impl PullModelRequest {
    /// A request to pull the named model, not yet streaming.
    pub fn new(model: &str) -> (r: Self)
        ensures
            r.model@ == model@,
            r.insecure is None,
            r.stream == false,
    {
        PullModelRequest { model: model.to_owned(), insecure: None, stream: false }
    }

    /// The wire object.
    pub fn to_json(&self) -> (r: JsonValue)
        ensures
            r@ == Json::Obj(pull_members(*self)),
    {
        let mut ms: Vec<(String, JsonValue)> = Vec::new();
        proof {
            assert(view_members(ms@) =~= Seq::<(Seq<char>, Json)>::empty());
        }
        push_str_member(&mut ms, "model", self.model.as_str());
        if let Some(b) = &self.insecure {
            push_bool_member(&mut ms, "insecure", *b);
        }
        push_bool_member(&mut ms, "stream", self.stream);
        proof {
            assert(view_members(ms@) =~= pull_members(*self));
        }
        JsonValue::Obj(ms)
    }
}

impl OllamaRequest for PullModelRequest {
    open spec fn spec_path(&self) -> Seq<char> {
        "/api/pull"@
    }

    open spec fn spec_method(&self) -> RequestMethod {
        RequestMethod::Post
    }

    fn path(&self) -> (p: String) {
        String::from_str("/api/pull")
    }

    fn method(&self) -> (m: RequestMethod) {
        RequestMethod::Post
    }
}

/// The push-model request.
#[derive(Debug, Clone)]
pub struct PushModelRequest {
    pub model: String,
    pub insecure: Option<bool>,
    pub stream: bool,
}

/// The wire members of a push request; an unset `insecure` is left off
/// entirely.
pub open spec fn push_members(r: PushModelRequest) -> Seq<(Seq<char>, Json)> {
    let m0 = seq![("model"@, Json::Str(r.model@))];
    let m1 = match r.insecure {
        Some(b) => m0.push(("insecure"@, Json::Bool(b))),
        None => m0,
    };
    m1.push(("stream"@, Json::Bool(r.stream)))
}

impl PushModelRequest {
    /// A request to push the named model, not yet streaming.
    pub fn new(model: &str) -> (r: Self)
        ensures
            r.model@ == model@,
            r.insecure is None,
            r.stream == false,
    {
        PushModelRequest { model: model.to_owned(), insecure: None, stream: false }
    }

    /// The wire object.
    pub fn to_json(&self) -> (r: JsonValue)
        ensures
            r@ == Json::Obj(push_members(*self)),
    {
        let mut ms: Vec<(String, JsonValue)> = Vec::new();
        proof {
            assert(view_members(ms@) =~= Seq::<(Seq<char>, Json)>::empty());
        }
        push_str_member(&mut ms, "model", self.model.as_str());
        if let Some(b) = &self.insecure {
            push_bool_member(&mut ms, "insecure", *b);
        }
        push_bool_member(&mut ms, "stream", self.stream);
        proof {
            assert(view_members(ms@) =~= push_members(*self));
        }
        JsonValue::Obj(ms)
    }
}

impl OllamaRequest for PushModelRequest {
    open spec fn spec_path(&self) -> Seq<char> {
        "/api/push"@
    }

    open spec fn spec_method(&self) -> RequestMethod {
        RequestMethod::Post
    }

    fn path(&self) -> (p: String) {
        String::from_str("/api/push")
    }

    fn method(&self) -> (m: RequestMethod) {
        RequestMethod::Post
    }
}

/// The blob-existence request: a HEAD on the blob's digest, no body.
#[derive(Debug, Clone)]
pub struct CheckBlobExistsRequest {
    pub digest: String,
}

impl CheckBlobExistsRequest {
    /// A request about the blob with the given digest.
    pub fn new(digest: &str) -> (r: Self)
        ensures
            r.digest@ == digest@,
    {
        CheckBlobExistsRequest { digest: digest.to_owned() }
    }
}

impl OllamaRequest for CheckBlobExistsRequest {
    open spec fn spec_path(&self) -> Seq<char> {
        "/api/blobs/"@ + self.digest@
    }

    open spec fn spec_method(&self) -> RequestMethod {
        RequestMethod::Head
    }

    fn path(&self) -> (p: String) {
        String::from_str("/api/blobs/").concat(self.digest.as_str())
    }

    fn method(&self) -> (m: RequestMethod) {
        RequestMethod::Head
    }
}

/// The blob-upload request: the local file to read and the expected digest.
/// The file's bytes are the body; the library only forms the path.
#[derive(Debug, Clone)]
pub struct PushBlobRequest {
    pub file: String,
    pub digest: String,
}

impl PushBlobRequest {
    /// A request to upload `file` as the blob with the given digest.
    pub fn new(file: &str, digest: &str) -> (r: Self)
        ensures
            r.file@ == file@,
            r.digest@ == digest@,
    {
        PushBlobRequest { file: file.to_owned(), digest: digest.to_owned() }
    }
}

impl OllamaRequest for PushBlobRequest {
    open spec fn spec_path(&self) -> Seq<char> {
        "/api/blobs/"@ + self.digest@
    }

    open spec fn spec_method(&self) -> RequestMethod {
        RequestMethod::Post
    }

    fn path(&self) -> (p: String) {
        String::from_str("/api/blobs/").concat(self.digest.as_str())
    }

    fn method(&self) -> (m: RequestMethod) {
        RequestMethod::Post
    }
}

/// The list-local-models request: a GET, no body.
#[derive(Debug, Clone)]
pub struct ListLocalModelsRequest {}

impl OllamaRequest for ListLocalModelsRequest {
    open spec fn spec_path(&self) -> Seq<char> {
        "/api/tags"@
    }

    open spec fn spec_method(&self) -> RequestMethod {
        RequestMethod::Get
    }

    fn path(&self) -> (p: String) {
        String::from_str("/api/tags")
    }

    fn method(&self) -> (m: RequestMethod) {
        RequestMethod::Get
    }
}

/// The list-running-models request: a GET, no body.
#[derive(Debug, Clone)]
pub struct ListRunningModelsRequest {}

impl OllamaRequest for ListRunningModelsRequest {
    open spec fn spec_path(&self) -> Seq<char> {
        "/api/ps"@
    }

    open spec fn spec_method(&self) -> RequestMethod {
        RequestMethod::Get
    }

    fn path(&self) -> (p: String) {
        String::from_str("/api/ps")
    }

    fn method(&self) -> (m: RequestMethod) {
        RequestMethod::Get
    }
}

/// The show-model-information request.
#[derive(Debug, Clone)]
pub struct ShowModelInformationRequest {
    pub model: String,
    pub verbose: Option<bool>,
}

/// The wire members of a show-model-information request.
pub open spec fn show_info_members(r: ShowModelInformationRequest) -> Seq<(Seq<char>, Json)> {
    let m0 = seq![("model"@, Json::Str(r.model@))];
    match r.verbose {
        Some(b) => m0.push(("verbose"@, Json::Bool(b))),
        None => m0,
    }
}

impl ShowModelInformationRequest {
    /// A request about the named model.
    pub fn new(model: &str) -> (r: Self)
        ensures
            r.model@ == model@,
            r.verbose is None,
    {
        ShowModelInformationRequest { model: model.to_owned(), verbose: None }
    }

    /// The wire object.
    pub fn to_json(&self) -> (r: JsonValue)
        ensures
            r@ == Json::Obj(show_info_members(*self)),
    {
        let mut ms: Vec<(String, JsonValue)> = Vec::new();
        proof {
            assert(view_members(ms@) =~= Seq::<(Seq<char>, Json)>::empty());
        }
        push_str_member(&mut ms, "model", self.model.as_str());
        if let Some(b) = &self.verbose {
            push_bool_member(&mut ms, "verbose", *b);
        }
        proof {
            assert(view_members(ms@) =~= show_info_members(*self));
        }
        JsonValue::Obj(ms)
    }
}

impl OllamaRequest for ShowModelInformationRequest {
    open spec fn spec_path(&self) -> Seq<char> {
        "/api/show"@
    }

    open spec fn spec_method(&self) -> RequestMethod {
        RequestMethod::Post
    }

    fn path(&self) -> (p: String) {
        String::from_str("/api/show")
    }

    fn method(&self) -> (m: RequestMethod) {
        RequestMethod::Post
    }
}

/// The version request: a GET, no body.
#[derive(Debug, Clone)]
pub struct VersionRequest {}

impl OllamaRequest for VersionRequest {
    open spec fn spec_path(&self) -> Seq<char> {
        "/api/version"@
    }

    open spec fn spec_method(&self) -> RequestMethod {
        RequestMethod::Get
    }

    fn path(&self) -> (p: String) {
        String::from_str("/api/version")
    }

    fn method(&self) -> (m: RequestMethod) {
        RequestMethod::Get
    }
}

/// The batch-embeddings request.
#[derive(Debug, Clone)]
pub struct GenerateEmbeddingsRequest {
    pub model: String,
    pub input: Vec<String>,
    pub truncate: Option<bool>,
    pub options: Parameter,
    pub keep_alive: Option<i64>,
}

/// The wire members of a batch-embeddings request.
pub open spec fn embeddings_members(r: GenerateEmbeddingsRequest) -> Seq<(Seq<char>, Json)> {
    let m0 = seq![
        ("model"@, Json::Str(r.model@)),
        ("input"@, Json::Arr(strings_json(r.input@))),
    ];
    let m1 = match r.truncate {
        Some(b) => m0.push(("truncate"@, Json::Bool(b))),
        None => m0,
    };
    let m2 = if !r.options.spec_is_default() {
        m1.push(("options"@, Json::Obj(parameter_members(r.options))))
    } else {
        m1
    };
    match r.keep_alive {
        Some(k) => m2.push(("keep_alive"@, Json::Num(crate::num::int_rep(k as int)))),
        None => m2,
    }
}

impl GenerateEmbeddingsRequest {
    /// A fresh request naming the model, with no inputs yet.
    pub fn new(model: &str) -> (r: Self)
        ensures
            r.model@ == model@,
            r.input@.len() == 0,
            r.truncate is None,
            r.options.spec_is_default(),
            r.keep_alive is None,
    {
        GenerateEmbeddingsRequest {
            model: model.to_owned(),
            input: Vec::new(),
            truncate: None,
            options: Parameter::default(),
            keep_alive: None,
        }
    }

    /// The wire object.
    pub fn to_json(&self) -> (r: JsonValue)
        ensures
            r@ == Json::Obj(embeddings_members(*self)),
    {
        let mut ms: Vec<(String, JsonValue)> = Vec::new();
        proof {
            assert(view_members(ms@) =~= Seq::<(Seq<char>, Json)>::empty());
        }
        push_str_member(&mut ms, "model", self.model.as_str());
        let arr = crate::json::strings_to_json(&self.input);
        push_value_member(&mut ms, "input", arr);
        if let Some(b) = &self.truncate {
            push_bool_member(&mut ms, "truncate", *b);
        }
        if !self.options.is_default() {
            let opts = parameter_to_json(&self.options);
            push_value_member(&mut ms, "options", opts);
        }
        if let Some(k) = &self.keep_alive {
            push_num_i64_member(&mut ms, "keep_alive", *k);
        }
        proof {
            assert(view_members(ms@) =~= embeddings_members(*self));
        }
        JsonValue::Obj(ms)
    }
}

impl OllamaRequest for GenerateEmbeddingsRequest {
    open spec fn spec_path(&self) -> Seq<char> {
        "/api/embed"@
    }

    open spec fn spec_method(&self) -> RequestMethod {
        RequestMethod::Post
    }

    fn path(&self) -> (p: String) {
        String::from_str("/api/embed")
    }

    fn method(&self) -> (m: RequestMethod) {
        RequestMethod::Post
    }
}

/// The single-prompt embedding request, on the older endpoint.
#[derive(Debug, Clone)]
pub struct GenerateEmbeddingRequest {
    pub model: String,
    pub prompt: String,
    pub options: Parameter,
    pub keep_alive: Option<i64>,
}

/// The wire members of a single-prompt embedding request.
pub open spec fn embedding_members(r: GenerateEmbeddingRequest) -> Seq<(Seq<char>, Json)> {
    let m0 = seq![
        ("model"@, Json::Str(r.model@)),
        ("prompt"@, Json::Str(r.prompt@)),
    ];
    let m1 = if !r.options.spec_is_default() {
        m0.push(("options"@, Json::Obj(parameter_members(r.options))))
    } else {
        m0
    };
    match r.keep_alive {
        Some(k) => m1.push(("keep_alive"@, Json::Num(crate::num::int_rep(k as int)))),
        None => m1,
    }
}

impl GenerateEmbeddingRequest {
    /// A fresh request with the model and the prompt.
    pub fn new(model: &str, prompt: &str) -> (r: Self)
        ensures
            r.model@ == model@,
            r.prompt@ == prompt@,
            r.options.spec_is_default(),
            r.keep_alive is None,
    {
        GenerateEmbeddingRequest {
            model: model.to_owned(),
            prompt: prompt.to_owned(),
            options: Parameter::default(),
            keep_alive: None,
        }
    }

    /// The wire object.
    pub fn to_json(&self) -> (r: JsonValue)
        ensures
            r@ == Json::Obj(embedding_members(*self)),
    {
        let mut ms: Vec<(String, JsonValue)> = Vec::new();
        proof {
            assert(view_members(ms@) =~= Seq::<(Seq<char>, Json)>::empty());
        }
        push_str_member(&mut ms, "model", self.model.as_str());
        push_str_member(&mut ms, "prompt", self.prompt.as_str());
        if !self.options.is_default() {
            let opts = parameter_to_json(&self.options);
            push_value_member(&mut ms, "options", opts);
        }
        if let Some(k) = &self.keep_alive {
            push_num_i64_member(&mut ms, "keep_alive", *k);
        }
        proof {
            assert(view_members(ms@) =~= embedding_members(*self));
        }
        JsonValue::Obj(ms)
    }
}

impl OllamaRequest for GenerateEmbeddingRequest {
    open spec fn spec_path(&self) -> Seq<char> {
        "/api/embeddings"@
    }

    open spec fn spec_method(&self) -> RequestMethod {
        RequestMethod::Post
    }

    fn path(&self) -> (p: String) {
        String::from_str("/api/embeddings")
    }

    fn method(&self) -> (m: RequestMethod) {
        RequestMethod::Post
    }
}

} // verus!
